//! The message templates of the ten languages, as JSON objects of strings,
//! built into the server.
use vstd::prelude::*;
use crate::text::str_is;

verus! {

/// The JSON text of the templates of a supported language.
pub open spec fn builtin_locale_text(lang: Seq<char>) -> Option<Seq<char>> {
    if lang == "en"@ {
        Some("{\"missing_in_code\": \"'{0}' is declared in the specification but not defined in the code.\", \"kind_mismatch\": \"'{0}' is declared as a {1} but defined as a {2} in the code.\", \"type_mismatch\": \"Parameter '{1}' of '{0}' is declared as '{2}' but is '{3}' in the code.\", \"var_type_mismatch\": \"'{0}' is declared with type '{1}' but has type '{2}' in the code.\", \"param_count_mismatch\": \"'{0}' is declared with {1} parameter(s) but has {2} in the code.\", \"return_type_mismatch\": \"'{0}' is declared to return '{1}' but returns '{2}' in the code.\", \"line_number_missing\": \"The line numbers of '{0}' are missing.\", \"line_number_mismatch\": \"The line numbers of '{0}' are {1} in the specification but {2} in the code.\", \"dependency_not_used\": \"'{0}' is declared to depend on '{1}', but the code does not use it.\", \"dead_code\": \"'{0}' is never used in the project.\", \"report_title\": \"# Variables and Functions Audit Report\\n\\n\", \"report_header\": \"The following inconsistencies were found between the specifications and the code.\\n\\n\", \"report_section_title\": \"## Issues\\n\\n\", \"code_action_title\": \"Update line numbers to {0}\"}"@)
    } else if lang == "ja"@ {
        Some("{\"missing_in_code\": \"'{0}' は仕様書で宣言されていますが、コードに定義がありません。\", \"kind_mismatch\": \"'{0}' は仕様書では{1}ですが、コードでは{2}として定義されています。\", \"type_mismatch\": \"'{0}' の引数 '{1}' は仕様書では '{2}' ですが、コードでは '{3}' です。\", \"var_type_mismatch\": \"'{0}' の型は仕様書では '{1}' ですが、コードでは '{2}' です。\", \"param_count_mismatch\": \"'{0}' の引数は仕様書では {1} 個ですが、コードでは {2} 個です。\", \"return_type_mismatch\": \"'{0}' の戻り値は仕様書では '{1}' ですが、コードでは '{2}' です。\", \"line_number_missing\": \"'{0}' の行番号が記載されていません。\", \"line_number_mismatch\": \"'{0}' の行番号は仕様書では {1} ですが、コードでは {2} です。\", \"dependency_not_used\": \"'{0}' は '{1}' に依存すると宣言されていますが、コードで使われていません。\", \"dead_code\": \"'{0}' はプロジェクト内で一度も使われていません。\", \"report_title\": \"# 変数・関数 監査レポート\\n\\n\", \"report_header\": \"仕様書とコードの間に以下の不整合が見つかりました。\\n\\n\", \"report_section_title\": \"## 指摘事項\\n\\n\", \"code_action_title\": \"行番号を {0} に更新\"}"@)
    } else if lang == "zh-cn"@ {
        Some("{\"missing_in_code\": \"'{0}' 在规格说明中声明，但代码中没有定义。\", \"kind_mismatch\": \"'{0}' 在规格说明中是{1}，但在代码中定义为{2}。\", \"type_mismatch\": \"'{0}' 的参数 '{1}' 在规格说明中为 '{2}'，但在代码中为 '{3}'。\", \"var_type_mismatch\": \"'{0}' 的类型在规格说明中为 '{1}'，但在代码中为 '{2}'。\", \"param_count_mismatch\": \"'{0}' 在规格说明中有 {1} 个参数，但在代码中有 {2} 个。\", \"return_type_mismatch\": \"'{0}' 的返回值在规格说明中为 '{1}'，但在代码中为 '{2}'。\", \"line_number_missing\": \"'{0}' 缺少行号。\", \"line_number_mismatch\": \"'{0}' 的行号在规格说明中为 {1}，但在代码中为 {2}。\", \"dependency_not_used\": \"'{0}' 声明依赖 '{1}'，但代码中没有使用。\", \"dead_code\": \"'{0}' 在项目中从未被使用。\", \"report_title\": \"# 变量与函数审计报告\\n\\n\", \"report_header\": \"在规格说明与代码之间发现以下不一致。\\n\\n\", \"report_section_title\": \"## 问题\\n\\n\", \"code_action_title\": \"将行号更新为 {0}\"}"@)
    } else if lang == "zh-tw"@ {
        Some("{\"missing_in_code\": \"'{0}' 在規格說明中宣告，但程式碼中沒有定義。\", \"kind_mismatch\": \"'{0}' 在規格說明中是{1}，但在程式碼中定義為{2}。\", \"type_mismatch\": \"'{0}' 的參數 '{1}' 在規格說明中為 '{2}'，但在程式碼中為 '{3}'。\", \"var_type_mismatch\": \"'{0}' 的型態在規格說明中為 '{1}'，但在程式碼中為 '{2}'。\", \"param_count_mismatch\": \"'{0}' 在規格說明中有 {1} 個參數，但在程式碼中有 {2} 個。\", \"return_type_mismatch\": \"'{0}' 的傳回值在規格說明中為 '{1}'，但在程式碼中為 '{2}'。\", \"line_number_missing\": \"'{0}' 缺少行號。\", \"line_number_mismatch\": \"'{0}' 的行號在規格說明中為 {1}，但在程式碼中為 {2}。\", \"dependency_not_used\": \"'{0}' 宣告依賴 '{1}'，但程式碼中沒有使用。\", \"dead_code\": \"'{0}' 在專案中從未被使用。\", \"report_title\": \"# 變數與函式稽核報告\\n\\n\", \"report_header\": \"在規格說明與程式碼之間發現以下不一致。\\n\\n\", \"report_section_title\": \"## 問題\\n\\n\", \"code_action_title\": \"將行號更新為 {0}\"}"@)
    } else if lang == "ko"@ {
        Some("{\"missing_in_code\": \"'{0}'은(는) 명세서에 선언되어 있지만 코드에 정의가 없습니다.\", \"kind_mismatch\": \"'{0}'은(는) 명세서에서는 {1}이지만 코드에서는 {2}(으)로 정의되어 있습니다.\", \"type_mismatch\": \"'{0}'의 매개변수 '{1}'은(는) 명세서에서는 '{2}'이지만 코드에서는 '{3}'입니다.\", \"var_type_mismatch\": \"'{0}'의 타입은 명세서에서는 '{1}'이지만 코드에서는 '{2}'입니다.\", \"param_count_mismatch\": \"'{0}'의 매개변수는 명세서에서는 {1}개이지만 코드에서는 {2}개입니다.\", \"return_type_mismatch\": \"'{0}'의 반환 타입은 명세서에서는 '{1}'이지만 코드에서는 '{2}'입니다.\", \"line_number_missing\": \"'{0}'의 라인 번호가 없습니다.\", \"line_number_mismatch\": \"'{0}'의 라인 번호는 명세서에서는 {1}이지만 코드에서는 {2}입니다.\", \"dependency_not_used\": \"'{0}'은(는) '{1}'에 의존한다고 선언되어 있지만 코드에서 사용하지 않습니다.\", \"dead_code\": \"'{0}'은(는) 프로젝트에서 한 번도 사용되지 않습니다.\", \"report_title\": \"# 변수 및 함수 감사 보고서\\n\\n\", \"report_header\": \"명세서와 코드 사이에서 다음 불일치가 발견되었습니다.\\n\\n\", \"report_section_title\": \"## 문제\\n\\n\", \"code_action_title\": \"라인 번호를 {0}(으)로 업데이트\"}"@)
    } else if lang == "et"@ {
        Some("{\"missing_in_code\": \"'{0}' on spetsifikatsioonis deklareeritud, kuid koodis puudub definitsioon.\", \"kind_mismatch\": \"'{0}' on spetsifikatsioonis {1}, kuid koodis {2}.\", \"type_mismatch\": \"'{0}' parameeter '{1}' on spetsifikatsioonis '{2}', kuid koodis '{3}'.\", \"var_type_mismatch\": \"'{0}' tüüp on spetsifikatsioonis '{1}', kuid koodis '{2}'.\", \"param_count_mismatch\": \"'{0}' parameetreid on spetsifikatsioonis {1}, kuid koodis {2}.\", \"return_type_mismatch\": \"'{0}' tagastustüüp on spetsifikatsioonis '{1}', kuid koodis '{2}'.\", \"line_number_missing\": \"'{0}' reanumbrid puuduvad.\", \"line_number_mismatch\": \"'{0}' reanumbrid on spetsifikatsioonis {1}, kuid koodis {2}.\", \"dependency_not_used\": \"'{0}' on deklareeritud sõltuvaks '{1}'-st, kuid kood seda ei kasuta.\", \"dead_code\": \"'{0}' ei kasutata projektis kunagi.\", \"report_title\": \"# Muutujate ja funktsioonide auditi aruanne\\n\\n\", \"report_header\": \"Spetsifikatsioonide ja koodi vahel leiti järgmised lahknevused.\\n\\n\", \"report_section_title\": \"## Probleemid\\n\\n\", \"code_action_title\": \"Uuenda reanumbrid: {0}\"}"@)
    } else if lang == "vi"@ {
        Some("{\"missing_in_code\": \"'{0}' được khai báo trong đặc tả nhưng không được định nghĩa trong mã.\", \"kind_mismatch\": \"'{0}' là {1} trong đặc tả nhưng được định nghĩa là {2} trong mã.\", \"type_mismatch\": \"Tham số '{1}' của '{0}' là '{2}' trong đặc tả nhưng là '{3}' trong mã.\", \"var_type_mismatch\": \"Kiểu của '{0}' là '{1}' trong đặc tả nhưng là '{2}' trong mã.\", \"param_count_mismatch\": \"'{0}' có {1} tham số trong đặc tả nhưng có {2} trong mã.\", \"return_type_mismatch\": \"Kiểu trả về của '{0}' là '{1}' trong đặc tả nhưng là '{2}' trong mã.\", \"line_number_missing\": \"Chưa ghi số dòng cho '{0}'.\", \"line_number_mismatch\": \"Số dòng của '{0}' là {1} trong đặc tả nhưng là {2} trong mã.\", \"dependency_not_used\": \"'{0}' được khai báo phụ thuộc vào '{1}' nhưng mã không sử dụng.\", \"dead_code\": \"'{0}' không bao giờ được sử dụng trong dự án.\", \"report_title\": \"# Báo cáo kiểm tra biến và hàm\\n\\n\", \"report_header\": \"Đã tìm thấy các điểm không nhất quán sau giữa đặc tả và mã.\\n\\n\", \"report_section_title\": \"## Vấn đề\\n\\n\", \"code_action_title\": \"Cập nhật số dòng thành {0}\"}"@)
    } else if lang == "es"@ {
        Some("{\"missing_in_code\": \"'{0}' está declarado en la especificación pero no está definido en el código.\", \"kind_mismatch\": \"'{0}' es {1} en la especificación pero está definido como {2} en el código.\", \"type_mismatch\": \"El parámetro '{1}' de '{0}' es '{2}' en la especificación pero '{3}' en el código.\", \"var_type_mismatch\": \"El tipo de '{0}' es '{1}' en la especificación pero '{2}' en el código.\", \"param_count_mismatch\": \"'{0}' tiene {1} parámetro(s) en la especificación pero {2} en el código.\", \"return_type_mismatch\": \"'{0}' devuelve '{1}' en la especificación pero '{2}' en el código.\", \"line_number_missing\": \"Faltan los números de línea de '{0}'.\", \"line_number_mismatch\": \"Los números de línea de '{0}' son {1} en la especificación pero {2} en el código.\", \"dependency_not_used\": \"'{0}' declara depender de '{1}', pero el código no lo usa.\", \"dead_code\": \"'{0}' nunca se usa en el proyecto.\", \"report_title\": \"# Informe de auditoría de variables y funciones\\n\\n\", \"report_header\": \"Se encontraron las siguientes inconsistencias entre las especificaciones y el código.\\n\\n\", \"report_section_title\": \"## Problemas\\n\\n\", \"code_action_title\": \"Actualizar números de línea a {0}\"}"@)
    } else if lang == "fr"@ {
        Some("{\"missing_in_code\": \"'{0}' est déclaré dans la spécification mais n'est pas défini dans le code.\", \"kind_mismatch\": \"'{0}' est un(e) {1} dans la spécification mais est défini comme {2} dans le code.\", \"type_mismatch\": \"Le paramètre '{1}' de '{0}' est '{2}' dans la spécification mais '{3}' dans le code.\", \"var_type_mismatch\": \"Le type de '{0}' est '{1}' dans la spécification mais '{2}' dans le code.\", \"param_count_mismatch\": \"'{0}' a {1} paramètre(s) dans la spécification mais {2} dans le code.\", \"return_type_mismatch\": \"'{0}' retourne '{1}' dans la spécification mais '{2}' dans le code.\", \"line_number_missing\": \"Les numéros de ligne de '{0}' sont manquants.\", \"line_number_mismatch\": \"Les numéros de ligne de '{0}' sont {1} dans la spécification mais {2} dans le code.\", \"dependency_not_used\": \"'{0}' déclare dépendre de '{1}', mais le code ne l'utilise pas.\", \"dead_code\": \"'{0}' n'est jamais utilisé dans le projet.\", \"report_title\": \"# Rapport d'audit des variables et fonctions\\n\\n\", \"report_header\": \"Les incohérences suivantes ont été trouvées entre les spécifications et le code.\\n\\n\", \"report_section_title\": \"## Problèmes\\n\\n\", \"code_action_title\": \"Mettre à jour les numéros de ligne en {0}\"}"@)
    } else if lang == "de"@ {
        Some("{\"missing_in_code\": \"'{0}' ist in der Spezifikation deklariert, aber im Code nicht definiert.\", \"kind_mismatch\": \"'{0}' ist in der Spezifikation ein(e) {1}, im Code aber als {2} definiert.\", \"type_mismatch\": \"Der Parameter '{1}' von '{0}' ist in der Spezifikation '{2}', im Code aber '{3}'.\", \"var_type_mismatch\": \"Der Typ von '{0}' ist in der Spezifikation '{1}', im Code aber '{2}'.\", \"param_count_mismatch\": \"'{0}' hat in der Spezifikation {1} Parameter, im Code aber {2}.\", \"return_type_mismatch\": \"'{0}' gibt in der Spezifikation '{1}' zurück, im Code aber '{2}'.\", \"line_number_missing\": \"Die Zeilennummern von '{0}' fehlen.\", \"line_number_mismatch\": \"Die Zeilennummern von '{0}' sind in der Spezifikation {1}, im Code aber {2}.\", \"dependency_not_used\": \"'{0}' hängt laut Deklaration von '{1}' ab, aber der Code verwendet es nicht.\", \"dead_code\": \"'{0}' wird im Projekt nie verwendet.\", \"report_title\": \"# Prüfbericht für Variablen und Funktionen\\n\\n\", \"report_header\": \"Zwischen den Spezifikationen und dem Code wurden folgende Inkonsistenzen gefunden.\\n\\n\", \"report_section_title\": \"## Probleme\\n\\n\", \"code_action_title\": \"Zeilennummern auf {0} aktualisieren\"}"@)
    } else {
        None
    }
}

/// The JSON text of the templates of `lang`; `None` for an unsupported
/// language.
pub fn builtin_locale_json(lang: &str) -> (r: Option<&'static str>)
    ensures
        match r {
            Some(s) => builtin_locale_text(lang@) == Some(s@),
            None => builtin_locale_text(lang@) is None,
        },
{
    if str_is(lang, "en") {
        Some("{\"missing_in_code\": \"'{0}' is declared in the specification but not defined in the code.\", \"kind_mismatch\": \"'{0}' is declared as a {1} but defined as a {2} in the code.\", \"type_mismatch\": \"Parameter '{1}' of '{0}' is declared as '{2}' but is '{3}' in the code.\", \"var_type_mismatch\": \"'{0}' is declared with type '{1}' but has type '{2}' in the code.\", \"param_count_mismatch\": \"'{0}' is declared with {1} parameter(s) but has {2} in the code.\", \"return_type_mismatch\": \"'{0}' is declared to return '{1}' but returns '{2}' in the code.\", \"line_number_missing\": \"The line numbers of '{0}' are missing.\", \"line_number_mismatch\": \"The line numbers of '{0}' are {1} in the specification but {2} in the code.\", \"dependency_not_used\": \"'{0}' is declared to depend on '{1}', but the code does not use it.\", \"dead_code\": \"'{0}' is never used in the project.\", \"report_title\": \"# Variables and Functions Audit Report\\n\\n\", \"report_header\": \"The following inconsistencies were found between the specifications and the code.\\n\\n\", \"report_section_title\": \"## Issues\\n\\n\", \"code_action_title\": \"Update line numbers to {0}\"}")
    } else if str_is(lang, "ja") {
        Some("{\"missing_in_code\": \"'{0}' は仕様書で宣言されていますが、コードに定義がありません。\", \"kind_mismatch\": \"'{0}' は仕様書では{1}ですが、コードでは{2}として定義されています。\", \"type_mismatch\": \"'{0}' の引数 '{1}' は仕様書では '{2}' ですが、コードでは '{3}' です。\", \"var_type_mismatch\": \"'{0}' の型は仕様書では '{1}' ですが、コードでは '{2}' です。\", \"param_count_mismatch\": \"'{0}' の引数は仕様書では {1} 個ですが、コードでは {2} 個です。\", \"return_type_mismatch\": \"'{0}' の戻り値は仕様書では '{1}' ですが、コードでは '{2}' です。\", \"line_number_missing\": \"'{0}' の行番号が記載されていません。\", \"line_number_mismatch\": \"'{0}' の行番号は仕様書では {1} ですが、コードでは {2} です。\", \"dependency_not_used\": \"'{0}' は '{1}' に依存すると宣言されていますが、コードで使われていません。\", \"dead_code\": \"'{0}' はプロジェクト内で一度も使われていません。\", \"report_title\": \"# 変数・関数 監査レポート\\n\\n\", \"report_header\": \"仕様書とコードの間に以下の不整合が見つかりました。\\n\\n\", \"report_section_title\": \"## 指摘事項\\n\\n\", \"code_action_title\": \"行番号を {0} に更新\"}")
    } else if str_is(lang, "zh-cn") {
        Some("{\"missing_in_code\": \"'{0}' 在规格说明中声明，但代码中没有定义。\", \"kind_mismatch\": \"'{0}' 在规格说明中是{1}，但在代码中定义为{2}。\", \"type_mismatch\": \"'{0}' 的参数 '{1}' 在规格说明中为 '{2}'，但在代码中为 '{3}'。\", \"var_type_mismatch\": \"'{0}' 的类型在规格说明中为 '{1}'，但在代码中为 '{2}'。\", \"param_count_mismatch\": \"'{0}' 在规格说明中有 {1} 个参数，但在代码中有 {2} 个。\", \"return_type_mismatch\": \"'{0}' 的返回值在规格说明中为 '{1}'，但在代码中为 '{2}'。\", \"line_number_missing\": \"'{0}' 缺少行号。\", \"line_number_mismatch\": \"'{0}' 的行号在规格说明中为 {1}，但在代码中为 {2}。\", \"dependency_not_used\": \"'{0}' 声明依赖 '{1}'，但代码中没有使用。\", \"dead_code\": \"'{0}' 在项目中从未被使用。\", \"report_title\": \"# 变量与函数审计报告\\n\\n\", \"report_header\": \"在规格说明与代码之间发现以下不一致。\\n\\n\", \"report_section_title\": \"## 问题\\n\\n\", \"code_action_title\": \"将行号更新为 {0}\"}")
    } else if str_is(lang, "zh-tw") {
        Some("{\"missing_in_code\": \"'{0}' 在規格說明中宣告，但程式碼中沒有定義。\", \"kind_mismatch\": \"'{0}' 在規格說明中是{1}，但在程式碼中定義為{2}。\", \"type_mismatch\": \"'{0}' 的參數 '{1}' 在規格說明中為 '{2}'，但在程式碼中為 '{3}'。\", \"var_type_mismatch\": \"'{0}' 的型態在規格說明中為 '{1}'，但在程式碼中為 '{2}'。\", \"param_count_mismatch\": \"'{0}' 在規格說明中有 {1} 個參數，但在程式碼中有 {2} 個。\", \"return_type_mismatch\": \"'{0}' 的傳回值在規格說明中為 '{1}'，但在程式碼中為 '{2}'。\", \"line_number_missing\": \"'{0}' 缺少行號。\", \"line_number_mismatch\": \"'{0}' 的行號在規格說明中為 {1}，但在程式碼中為 {2}。\", \"dependency_not_used\": \"'{0}' 宣告依賴 '{1}'，但程式碼中沒有使用。\", \"dead_code\": \"'{0}' 在專案中從未被使用。\", \"report_title\": \"# 變數與函式稽核報告\\n\\n\", \"report_header\": \"在規格說明與程式碼之間發現以下不一致。\\n\\n\", \"report_section_title\": \"## 問題\\n\\n\", \"code_action_title\": \"將行號更新為 {0}\"}")
    } else if str_is(lang, "ko") {
        Some("{\"missing_in_code\": \"'{0}'은(는) 명세서에 선언되어 있지만 코드에 정의가 없습니다.\", \"kind_mismatch\": \"'{0}'은(는) 명세서에서는 {1}이지만 코드에서는 {2}(으)로 정의되어 있습니다.\", \"type_mismatch\": \"'{0}'의 매개변수 '{1}'은(는) 명세서에서는 '{2}'이지만 코드에서는 '{3}'입니다.\", \"var_type_mismatch\": \"'{0}'의 타입은 명세서에서는 '{1}'이지만 코드에서는 '{2}'입니다.\", \"param_count_mismatch\": \"'{0}'의 매개변수는 명세서에서는 {1}개이지만 코드에서는 {2}개입니다.\", \"return_type_mismatch\": \"'{0}'의 반환 타입은 명세서에서는 '{1}'이지만 코드에서는 '{2}'입니다.\", \"line_number_missing\": \"'{0}'의 라인 번호가 없습니다.\", \"line_number_mismatch\": \"'{0}'의 라인 번호는 명세서에서는 {1}이지만 코드에서는 {2}입니다.\", \"dependency_not_used\": \"'{0}'은(는) '{1}'에 의존한다고 선언되어 있지만 코드에서 사용하지 않습니다.\", \"dead_code\": \"'{0}'은(는) 프로젝트에서 한 번도 사용되지 않습니다.\", \"report_title\": \"# 변수 및 함수 감사 보고서\\n\\n\", \"report_header\": \"명세서와 코드 사이에서 다음 불일치가 발견되었습니다.\\n\\n\", \"report_section_title\": \"## 문제\\n\\n\", \"code_action_title\": \"라인 번호를 {0}(으)로 업데이트\"}")
    } else if str_is(lang, "et") {
        Some("{\"missing_in_code\": \"'{0}' on spetsifikatsioonis deklareeritud, kuid koodis puudub definitsioon.\", \"kind_mismatch\": \"'{0}' on spetsifikatsioonis {1}, kuid koodis {2}.\", \"type_mismatch\": \"'{0}' parameeter '{1}' on spetsifikatsioonis '{2}', kuid koodis '{3}'.\", \"var_type_mismatch\": \"'{0}' tüüp on spetsifikatsioonis '{1}', kuid koodis '{2}'.\", \"param_count_mismatch\": \"'{0}' parameetreid on spetsifikatsioonis {1}, kuid koodis {2}.\", \"return_type_mismatch\": \"'{0}' tagastustüüp on spetsifikatsioonis '{1}', kuid koodis '{2}'.\", \"line_number_missing\": \"'{0}' reanumbrid puuduvad.\", \"line_number_mismatch\": \"'{0}' reanumbrid on spetsifikatsioonis {1}, kuid koodis {2}.\", \"dependency_not_used\": \"'{0}' on deklareeritud sõltuvaks '{1}'-st, kuid kood seda ei kasuta.\", \"dead_code\": \"'{0}' ei kasutata projektis kunagi.\", \"report_title\": \"# Muutujate ja funktsioonide auditi aruanne\\n\\n\", \"report_header\": \"Spetsifikatsioonide ja koodi vahel leiti järgmised lahknevused.\\n\\n\", \"report_section_title\": \"## Probleemid\\n\\n\", \"code_action_title\": \"Uuenda reanumbrid: {0}\"}")
    } else if str_is(lang, "vi") {
        Some("{\"missing_in_code\": \"'{0}' được khai báo trong đặc tả nhưng không được định nghĩa trong mã.\", \"kind_mismatch\": \"'{0}' là {1} trong đặc tả nhưng được định nghĩa là {2} trong mã.\", \"type_mismatch\": \"Tham số '{1}' của '{0}' là '{2}' trong đặc tả nhưng là '{3}' trong mã.\", \"var_type_mismatch\": \"Kiểu của '{0}' là '{1}' trong đặc tả nhưng là '{2}' trong mã.\", \"param_count_mismatch\": \"'{0}' có {1} tham số trong đặc tả nhưng có {2} trong mã.\", \"return_type_mismatch\": \"Kiểu trả về của '{0}' là '{1}' trong đặc tả nhưng là '{2}' trong mã.\", \"line_number_missing\": \"Chưa ghi số dòng cho '{0}'.\", \"line_number_mismatch\": \"Số dòng của '{0}' là {1} trong đặc tả nhưng là {2} trong mã.\", \"dependency_not_used\": \"'{0}' được khai báo phụ thuộc vào '{1}' nhưng mã không sử dụng.\", \"dead_code\": \"'{0}' không bao giờ được sử dụng trong dự án.\", \"report_title\": \"# Báo cáo kiểm tra biến và hàm\\n\\n\", \"report_header\": \"Đã tìm thấy các điểm không nhất quán sau giữa đặc tả và mã.\\n\\n\", \"report_section_title\": \"## Vấn đề\\n\\n\", \"code_action_title\": \"Cập nhật số dòng thành {0}\"}")
    } else if str_is(lang, "es") {
        Some("{\"missing_in_code\": \"'{0}' está declarado en la especificación pero no está definido en el código.\", \"kind_mismatch\": \"'{0}' es {1} en la especificación pero está definido como {2} en el código.\", \"type_mismatch\": \"El parámetro '{1}' de '{0}' es '{2}' en la especificación pero '{3}' en el código.\", \"var_type_mismatch\": \"El tipo de '{0}' es '{1}' en la especificación pero '{2}' en el código.\", \"param_count_mismatch\": \"'{0}' tiene {1} parámetro(s) en la especificación pero {2} en el código.\", \"return_type_mismatch\": \"'{0}' devuelve '{1}' en la especificación pero '{2}' en el código.\", \"line_number_missing\": \"Faltan los números de línea de '{0}'.\", \"line_number_mismatch\": \"Los números de línea de '{0}' son {1} en la especificación pero {2} en el código.\", \"dependency_not_used\": \"'{0}' declara depender de '{1}', pero el código no lo usa.\", \"dead_code\": \"'{0}' nunca se usa en el proyecto.\", \"report_title\": \"# Informe de auditoría de variables y funciones\\n\\n\", \"report_header\": \"Se encontraron las siguientes inconsistencias entre las especificaciones y el código.\\n\\n\", \"report_section_title\": \"## Problemas\\n\\n\", \"code_action_title\": \"Actualizar números de línea a {0}\"}")
    } else if str_is(lang, "fr") {
        Some("{\"missing_in_code\": \"'{0}' est déclaré dans la spécification mais n'est pas défini dans le code.\", \"kind_mismatch\": \"'{0}' est un(e) {1} dans la spécification mais est défini comme {2} dans le code.\", \"type_mismatch\": \"Le paramètre '{1}' de '{0}' est '{2}' dans la spécification mais '{3}' dans le code.\", \"var_type_mismatch\": \"Le type de '{0}' est '{1}' dans la spécification mais '{2}' dans le code.\", \"param_count_mismatch\": \"'{0}' a {1} paramètre(s) dans la spécification mais {2} dans le code.\", \"return_type_mismatch\": \"'{0}' retourne '{1}' dans la spécification mais '{2}' dans le code.\", \"line_number_missing\": \"Les numéros de ligne de '{0}' sont manquants.\", \"line_number_mismatch\": \"Les numéros de ligne de '{0}' sont {1} dans la spécification mais {2} dans le code.\", \"dependency_not_used\": \"'{0}' déclare dépendre de '{1}', mais le code ne l'utilise pas.\", \"dead_code\": \"'{0}' n'est jamais utilisé dans le projet.\", \"report_title\": \"# Rapport d'audit des variables et fonctions\\n\\n\", \"report_header\": \"Les incohérences suivantes ont été trouvées entre les spécifications et le code.\\n\\n\", \"report_section_title\": \"## Problèmes\\n\\n\", \"code_action_title\": \"Mettre à jour les numéros de ligne en {0}\"}")
    } else if str_is(lang, "de") {
        Some("{\"missing_in_code\": \"'{0}' ist in der Spezifikation deklariert, aber im Code nicht definiert.\", \"kind_mismatch\": \"'{0}' ist in der Spezifikation ein(e) {1}, im Code aber als {2} definiert.\", \"type_mismatch\": \"Der Parameter '{1}' von '{0}' ist in der Spezifikation '{2}', im Code aber '{3}'.\", \"var_type_mismatch\": \"Der Typ von '{0}' ist in der Spezifikation '{1}', im Code aber '{2}'.\", \"param_count_mismatch\": \"'{0}' hat in der Spezifikation {1} Parameter, im Code aber {2}.\", \"return_type_mismatch\": \"'{0}' gibt in der Spezifikation '{1}' zurück, im Code aber '{2}'.\", \"line_number_missing\": \"Die Zeilennummern von '{0}' fehlen.\", \"line_number_mismatch\": \"Die Zeilennummern von '{0}' sind in der Spezifikation {1}, im Code aber {2}.\", \"dependency_not_used\": \"'{0}' hängt laut Deklaration von '{1}' ab, aber der Code verwendet es nicht.\", \"dead_code\": \"'{0}' wird im Projekt nie verwendet.\", \"report_title\": \"# Prüfbericht für Variablen und Funktionen\\n\\n\", \"report_header\": \"Zwischen den Spezifikationen und dem Code wurden folgende Inkonsistenzen gefunden.\\n\\n\", \"report_section_title\": \"## Probleme\\n\\n\", \"code_action_title\": \"Zeilennummern auf {0} aktualisieren\"}")
    } else {
        None
    }
}

} // verus!
