pub mod auditor;
pub mod extract;
pub mod fixes;
pub mod grammars;
pub mod headings;
pub mod hfsm;
pub mod i18n;
pub mod identifiers;
pub mod langs;
pub mod locales;
pub mod parser;
pub mod report;
pub mod sample;
pub mod scan;
pub mod spec_doc;
pub mod symbols;
pub mod syntax;
pub mod text;
pub mod workspace;
