//! Code completion: keywords, types, and the declarations of the
//! document, chosen by what stands before the cursor.

use vstd::prelude::*;
use crate::ast::{AstNode, Parameter, Program};
use crate::document::DocumentManager;
use crate::hover::opt_view;
use crate::position::Position;
use crate::folding::{begins_with, trim_start};
use crate::strings::{chars_have_prefix_at, chars_vec, string_from_range, text_eq, trim_end_char, trimmed_end_len};
use crate::text::spec_doc_line;
use crate::type_text::{format_type_plain, join, spec_join, spec_type_text_plain, views};
use crate::unicode::{char_is_alphabetic, char_is_whitespace, spec_char_is_alphabetic, spec_char_is_whitespace};

verus! {

/// The kinds of completion items.
#[derive(Debug, Clone, Copy, PartialEq, Eq, Structural)]
pub enum CompletionItemKind {
    Keyword,
    TypeParameter,
    Function,
    Field,
    Method,
    Module,
    Variable,
    Struct,
    Enum,
    Property,
    Class,
    Interface,
}

/// How an item's insert text is read.
#[derive(Debug, Clone, Copy, PartialEq, Eq, Structural)]
pub enum InsertTextFormat {
    PlainText,
    Snippet,
}

/// How an item's insert text is indented.
#[derive(Debug, Clone, Copy, PartialEq, Eq, Structural)]
pub enum InsertTextMode {
    AdjustIndentation,
}

/// A completion item.
#[derive(Debug, Clone)]
pub struct CompletionItem {
    pub label: String,
    pub kind: Option<CompletionItemKind>,
    pub detail: Option<String>,
    pub deprecated: Option<bool>,
    pub preselect: Option<bool>,
    pub sort_text: Option<String>,
    pub filter_text: Option<String>,
    pub insert_text: Option<String>,
    pub insert_text_format: Option<InsertTextFormat>,
    pub insert_text_mode: Option<InsertTextMode>,
}

/// A completion item, as values.
pub struct CompletionView {
    pub label: Seq<char>,
    pub kind: Option<CompletionItemKind>,
    pub detail: Option<Seq<char>>,
    pub deprecated: Option<bool>,
    pub preselect: Option<bool>,
    pub sort_text: Option<Seq<char>>,
    pub filter_text: Option<Seq<char>>,
    pub insert_text: Option<Seq<char>>,
    pub insert_text_format: Option<InsertTextFormat>,
    pub insert_text_mode: Option<InsertTextMode>,
}

impl View for CompletionItem {
    type V = CompletionView;

    open spec fn view(&self) -> CompletionView {
        CompletionView {
            label: self.label@,
            kind: self.kind,
            detail: opt_view(self.detail),
            deprecated: self.deprecated,
            preselect: self.preselect,
            sort_text: opt_view(self.sort_text),
            filter_text: opt_view(self.filter_text),
            insert_text: opt_view(self.insert_text),
            insert_text_format: self.insert_text_format,
            insert_text_mode: self.insert_text_mode,
        }
    }
}

/// The views of completion items.
pub open spec fn items_view(s: Seq<CompletionItem>) -> Seq<CompletionView> {
    s.map_values(|c: CompletionItem| c@)
}

/// A keyword item: a snippet that adjusts its indentation.
pub open spec fn keyword_item(label: Seq<char>, detail: Seq<char>, insert: Seq<char>, sort: Seq<char>) -> CompletionView {
    CompletionView {
        label,
        kind: Some(CompletionItemKind::Keyword),
        detail: Some(detail),
        deprecated: Some(false),
        preselect: Some(false),
        sort_text: Some(sort),
        filter_text: Some(label),
        insert_text: Some(insert),
        insert_text_format: Some(InsertTextFormat::Snippet),
        insert_text_mode: Some(InsertTextMode::AdjustIndentation),
    }
}

/// A plain item that inserts its label.
pub open spec fn plain_item(label: Seq<char>, kind: CompletionItemKind, detail: Option<Seq<char>>, sort: Seq<char>) -> CompletionView {
    CompletionView {
        label,
        kind: Some(kind),
        detail,
        deprecated: Some(false),
        preselect: Some(false),
        sort_text: Some(sort),
        filter_text: Some(label),
        insert_text: Some(label),
        insert_text_format: Some(InsertTextFormat::PlainText),
        insert_text_mode: None,
    }
}

fn keyword_completion(label: &str, detail: &str, insert: &str, sort: &str) -> (r: CompletionItem)
    ensures
        r@ == keyword_item(label@, detail@, insert@, sort@),
{
    CompletionItem {
        label: String::from_str(label),
        kind: Some(CompletionItemKind::Keyword),
        detail: Some(String::from_str(detail)),
        deprecated: Some(false),
        preselect: Some(false),
        sort_text: Some(String::from_str(sort)),
        filter_text: Some(String::from_str(label)),
        insert_text: Some(String::from_str(insert)),
        insert_text_format: Some(InsertTextFormat::Snippet),
        insert_text_mode: Some(InsertTextMode::AdjustIndentation),
    }
}

fn plain_completion(label: String, kind: CompletionItemKind, detail: Option<String>, sort: String) -> (r: CompletionItem)
    ensures
        r@ == plain_item(label@, kind, opt_view(detail), sort@),
{
    let filter = label.clone();
    let insert = label.clone();
    CompletionItem {
        label,
        kind: Some(kind),
        detail,
        deprecated: Some(false),
        preselect: Some(false),
        sort_text: Some(sort),
        filter_text: Some(filter),
        insert_text: Some(insert),
        insert_text_format: Some(InsertTextFormat::PlainText),
        insert_text_mode: None,
    }
}

/// The keyword completions, in order.
pub open spec fn spec_keyword_items() -> Seq<CompletionView> {
    seq![
        keyword_item("包"@, "package"@, "包 主程序;"@, "0000"@),
        keyword_item("函数"@, "function"@, "函数 ${1:名称}(${2:参数}: ${3:类型})${4:: ${5:返回类型}} {\n    ${6:返回 ${7:结果};}\n}"@, "0001"@),
        keyword_item("异步"@, "async modifier"@, "异步"@, "0002"@),
        keyword_item("变量"@, "variable"@, "变量 ${1:名称}: ${2:类型} = ${3:值};"@, "0003"@),
        keyword_item("常量"@, "constant"@, "常量 ${1:名称}: ${2:类型} = ${3:值};"@, "0004"@),
        keyword_item("导入"@, "import"@, "导入 标准库.${1:模块名};"@, "0005"@),
        keyword_item("导出"@, "export"@, "导出"@, "0006"@),
        keyword_item("作为"@, "as/alias"@, "作为 ${1:别名}"@, "0007"@),
        keyword_item("模块"@, "module"@, "模块 ${1:名称};"@, "0008"@),
        keyword_item("公开"@, "public"@, "公开"@, "0009"@),
        keyword_item("私有"@, "private"@, "私有"@, "0010"@),
        keyword_item("如果"@, "if"@, "如果 ${1:条件} {\n    ${2:}\n} 否则 {\n    ${3:}\n}"@, "0011"@),
        keyword_item("否则"@, "else"@, "否则 {\n    ${1:}\n}"@, "0012"@),
        keyword_item("当"@, "while"@, "当 ${1:条件} {\n    ${2:}\n}"@, "0013"@),
        keyword_item("对于"@, "for"@, "对于 ${1:元素} 在 ${2:集合} 中 {\n    ${3:}\n}"@, "0014"@),
        keyword_item("在"@, "in"@, "在"@, "0015"@),
        keyword_item("循环"@, "loop"@, "循环 {\n    ${1:}\n    如果 ${2:条件} {\n        跳出;\n    }\n}"@, "0016"@),
        keyword_item("跳出"@, "break"@, "跳出;"@, "0017"@),
        keyword_item("继续"@, "continue"@, "继续;"@, "0018"@),
        keyword_item("返回"@, "return"@, "返回 ${1:值};"@, "0019"@),
        keyword_item("匹配"@, "match"@, "匹配 ${1:值} {\n    情况 ${2:模式} => ${3:结果},\n    情况 _ => ${4:默认},\n}"@, "0020"@),
        keyword_item("选择"@, "select/switch"@, "选择 ${1:值} {\n    情况 ${2:模式} => ${3:结果},\n    情况 _ => ${4:默认},\n}"@, "0021"@),
        keyword_item("情况"@, "case"@, "情况 ${1:模式} => ${2:结果},"@, "0022"@),
        keyword_item("类型"@, "type/struct"@, "类型 ${1:名称} {\n    ${2:字段}: ${3:类型};\n}"@, "0023"@),
        keyword_item("结构体"@, "struct"@, "结构体 ${1:名称} {\n    ${2:字段}: ${3:类型};\n}"@, "0024"@),
        keyword_item("枚举"@, "enum"@, "枚举 ${1:名称} {\n    ${2:变体},\n}"@, "0025"@),
        keyword_item("联合体"@, "union"@, "联合体 ${1:名称} {\n    ${2:字段}: ${3:类型};\n}"@, "0026"@),
        keyword_item("方法"@, "method"@, "方法 ${1:名称}(自己: ${2:类型})${3:: ${4:返回类型}} {\n    ${5:}\n}"@, "0027"@),
        keyword_item("自己"@, "self"@, "自己"@, "0028"@),
        keyword_item("新建"@, "new/instantiate"@, "新建 ${1:类型} { ${2:字段}: ${3:值} }"@, "0029"@),
        keyword_item("闭包"@, "closure"@, "闭包(${1:参数}) {\n    ${2:}\n}"@, "0030"@),
        keyword_item("内联"@, "inline"@, "内联"@, "0031"@),
        keyword_item("启动"@, "spawn goroutine"@, "启动 ${1:函数名}();"@, "0032"@),
        keyword_item("协程"@, "coroutine"@, "协程"@, "0033"@),
        keyword_item("通道"@, "channel"@, "通道<${1:类型}>"@, "0034"@),
        keyword_item("并发"@, "concurrent"@, "并发"@, "0035"@),
        keyword_item("等待"@, "await"@, "等待 ${1:异步调用};"@, "0036"@),
        keyword_item("等待组"@, "wait group"@, "等待组"@, "0037"@),
        keyword_item("互斥锁"@, "mutex"@, "互斥锁"@, "0038"@),
        keyword_item("读写锁"@, "rwlock"@, "读写锁"@, "0039"@),
        keyword_item("条件变量"@, "condvar"@, "条件变量"@, "0040"@),
        keyword_item("仅一次"@, "once"@, "仅一次"@, "0041"@),
        keyword_item("尝试"@, "try"@, "尝试 {\n    ${1:}\n} 捕获 ${2:错误} {\n    ${3:}\n}"@, "0042"@),
        keyword_item("捕获"@, "catch"@, "捕获 ${1:错误} {\n    ${2:}\n}"@, "0043"@),
        keyword_item("抛出"@, "throw"@, "抛出 ${1:错误};"@, "0044"@),
        keyword_item("最终"@, "finally"@, "最终 {\n    ${1:}\n}"@, "0045"@),
        keyword_item("重试"@, "retry"@, "重试"@, "0046"@),
        keyword_item("超时"@, "timeout"@, "超时(${1:时长})"@, "0047"@),
        keyword_item("取地址"@, "address-of"@, "取地址 ${1:变量}"@, "0048"@),
        keyword_item("解引用"@, "dereference"@, "解引用 ${1:指针}"@, "0049"@),
        keyword_item("参数"@, "parameter"@, "参数"@, "0050"@),
        keyword_item("与"@, "and"@, "与"@, "0051"@),
        keyword_item("或"@, "or"@, "或"@, "0052"@),
        keyword_item("打印行"@, "println"@, "打印行(${1:\"内容\"});"@, "0053"@),
        keyword_item("打印"@, "print"@, "打印(${1:\"内容\"});"@, "0054"@),
        keyword_item("异步函数"@, "async function"@, "异步函数 ${1:名称}(${2:参数}: ${3:类型})${4:: ${5:返回类型}} {\n    ${6:}\n}"@, "0055"@),
    ]
}

/// Get Qi keyword completions.
pub fn get_keyword_completions() -> (r: Vec<CompletionItem>)
    ensures
        items_view(r@) == spec_keyword_items(),
{
    let mut items: Vec<CompletionItem> = Vec::new();
    items.push(keyword_completion("包", "package", "包 主程序;", "0000"));
    items.push(keyword_completion("函数", "function", "函数 ${1:名称}(${2:参数}: ${3:类型})${4:: ${5:返回类型}} {\n    ${6:返回 ${7:结果};}\n}", "0001"));
    items.push(keyword_completion("异步", "async modifier", "异步", "0002"));
    items.push(keyword_completion("变量", "variable", "变量 ${1:名称}: ${2:类型} = ${3:值};", "0003"));
    items.push(keyword_completion("常量", "constant", "常量 ${1:名称}: ${2:类型} = ${3:值};", "0004"));
    items.push(keyword_completion("导入", "import", "导入 标准库.${1:模块名};", "0005"));
    items.push(keyword_completion("导出", "export", "导出", "0006"));
    items.push(keyword_completion("作为", "as/alias", "作为 ${1:别名}", "0007"));
    items.push(keyword_completion("模块", "module", "模块 ${1:名称};", "0008"));
    items.push(keyword_completion("公开", "public", "公开", "0009"));
    items.push(keyword_completion("私有", "private", "私有", "0010"));
    items.push(keyword_completion("如果", "if", "如果 ${1:条件} {\n    ${2:}\n} 否则 {\n    ${3:}\n}", "0011"));
    items.push(keyword_completion("否则", "else", "否则 {\n    ${1:}\n}", "0012"));
    items.push(keyword_completion("当", "while", "当 ${1:条件} {\n    ${2:}\n}", "0013"));
    items.push(keyword_completion("对于", "for", "对于 ${1:元素} 在 ${2:集合} 中 {\n    ${3:}\n}", "0014"));
    items.push(keyword_completion("在", "in", "在", "0015"));
    items.push(keyword_completion("循环", "loop", "循环 {\n    ${1:}\n    如果 ${2:条件} {\n        跳出;\n    }\n}", "0016"));
    items.push(keyword_completion("跳出", "break", "跳出;", "0017"));
    items.push(keyword_completion("继续", "continue", "继续;", "0018"));
    items.push(keyword_completion("返回", "return", "返回 ${1:值};", "0019"));
    items.push(keyword_completion("匹配", "match", "匹配 ${1:值} {\n    情况 ${2:模式} => ${3:结果},\n    情况 _ => ${4:默认},\n}", "0020"));
    items.push(keyword_completion("选择", "select/switch", "选择 ${1:值} {\n    情况 ${2:模式} => ${3:结果},\n    情况 _ => ${4:默认},\n}", "0021"));
    items.push(keyword_completion("情况", "case", "情况 ${1:模式} => ${2:结果},", "0022"));
    items.push(keyword_completion("类型", "type/struct", "类型 ${1:名称} {\n    ${2:字段}: ${3:类型};\n}", "0023"));
    items.push(keyword_completion("结构体", "struct", "结构体 ${1:名称} {\n    ${2:字段}: ${3:类型};\n}", "0024"));
    items.push(keyword_completion("枚举", "enum", "枚举 ${1:名称} {\n    ${2:变体},\n}", "0025"));
    items.push(keyword_completion("联合体", "union", "联合体 ${1:名称} {\n    ${2:字段}: ${3:类型};\n}", "0026"));
    items.push(keyword_completion("方法", "method", "方法 ${1:名称}(自己: ${2:类型})${3:: ${4:返回类型}} {\n    ${5:}\n}", "0027"));
    items.push(keyword_completion("自己", "self", "自己", "0028"));
    items.push(keyword_completion("新建", "new/instantiate", "新建 ${1:类型} { ${2:字段}: ${3:值} }", "0029"));
    items.push(keyword_completion("闭包", "closure", "闭包(${1:参数}) {\n    ${2:}\n}", "0030"));
    items.push(keyword_completion("内联", "inline", "内联", "0031"));
    items.push(keyword_completion("启动", "spawn goroutine", "启动 ${1:函数名}();", "0032"));
    items.push(keyword_completion("协程", "coroutine", "协程", "0033"));
    items.push(keyword_completion("通道", "channel", "通道<${1:类型}>", "0034"));
    items.push(keyword_completion("并发", "concurrent", "并发", "0035"));
    items.push(keyword_completion("等待", "await", "等待 ${1:异步调用};", "0036"));
    items.push(keyword_completion("等待组", "wait group", "等待组", "0037"));
    items.push(keyword_completion("互斥锁", "mutex", "互斥锁", "0038"));
    items.push(keyword_completion("读写锁", "rwlock", "读写锁", "0039"));
    items.push(keyword_completion("条件变量", "condvar", "条件变量", "0040"));
    items.push(keyword_completion("仅一次", "once", "仅一次", "0041"));
    items.push(keyword_completion("尝试", "try", "尝试 {\n    ${1:}\n} 捕获 ${2:错误} {\n    ${3:}\n}", "0042"));
    items.push(keyword_completion("捕获", "catch", "捕获 ${1:错误} {\n    ${2:}\n}", "0043"));
    items.push(keyword_completion("抛出", "throw", "抛出 ${1:错误};", "0044"));
    items.push(keyword_completion("最终", "finally", "最终 {\n    ${1:}\n}", "0045"));
    items.push(keyword_completion("重试", "retry", "重试", "0046"));
    items.push(keyword_completion("超时", "timeout", "超时(${1:时长})", "0047"));
    items.push(keyword_completion("取地址", "address-of", "取地址 ${1:变量}", "0048"));
    items.push(keyword_completion("解引用", "dereference", "解引用 ${1:指针}", "0049"));
    items.push(keyword_completion("参数", "parameter", "参数", "0050"));
    items.push(keyword_completion("与", "and", "与", "0051"));
    items.push(keyword_completion("或", "or", "或", "0052"));
    items.push(keyword_completion("打印行", "println", "打印行(${1:\"内容\"});", "0053"));
    items.push(keyword_completion("打印", "print", "打印(${1:\"内容\"});", "0054"));
    items.push(keyword_completion("异步函数", "async function", "异步函数 ${1:名称}(${2:参数}: ${3:类型})${4:: ${5:返回类型}} {\n    ${6:}\n}", "0055"));
    assert(items_view(items@) =~= spec_keyword_items());
    items
}

/// The type completions, in order.
pub open spec fn spec_type_items() -> Seq<CompletionView> {
    seq![
        plain_item("整数"@, CompletionItemKind::TypeParameter, Some("integer"@), "type0000"@),
        plain_item("长整数"@, CompletionItemKind::TypeParameter, Some("long integer"@), "type0001"@),
        plain_item("短整数"@, CompletionItemKind::TypeParameter, Some("short integer"@), "type0002"@),
        plain_item("字节"@, CompletionItemKind::TypeParameter, Some("byte"@), "type0003"@),
        plain_item("浮点数"@, CompletionItemKind::TypeParameter, Some("float"@), "type0004"@),
        plain_item("布尔"@, CompletionItemKind::TypeParameter, Some("boolean"@), "type0005"@),
        plain_item("字符"@, CompletionItemKind::TypeParameter, Some("character"@), "type0006"@),
        plain_item("字符串"@, CompletionItemKind::TypeParameter, Some("string"@), "type0007"@),
        plain_item("空"@, CompletionItemKind::TypeParameter, Some("void"@), "type0008"@),
        plain_item("数组"@, CompletionItemKind::TypeParameter, Some("array"@), "type0009"@),
        plain_item("字典"@, CompletionItemKind::TypeParameter, Some("dictionary"@), "type0010"@),
        plain_item("列表"@, CompletionItemKind::TypeParameter, Some("list"@), "type0011"@),
        plain_item("集合"@, CompletionItemKind::TypeParameter, Some("set"@), "type0012"@),
        plain_item("指针"@, CompletionItemKind::TypeParameter, Some("pointer"@), "type0013"@),
        plain_item("引用"@, CompletionItemKind::TypeParameter, Some("reference"@), "type0014"@),
        plain_item("可变引用"@, CompletionItemKind::TypeParameter, Some("mutable reference"@), "type0015"@),
    ]
}

/// Get Qi type completions.
pub fn get_type_completions() -> (r: Vec<CompletionItem>)
    ensures
        items_view(r@) == spec_type_items(),
{
    let mut items: Vec<CompletionItem> = Vec::new();
    items.push(plain_completion(String::from_str("整数"), CompletionItemKind::TypeParameter, Some(String::from_str("integer")), String::from_str("type0000")));
    items.push(plain_completion(String::from_str("长整数"), CompletionItemKind::TypeParameter, Some(String::from_str("long integer")), String::from_str("type0001")));
    items.push(plain_completion(String::from_str("短整数"), CompletionItemKind::TypeParameter, Some(String::from_str("short integer")), String::from_str("type0002")));
    items.push(plain_completion(String::from_str("字节"), CompletionItemKind::TypeParameter, Some(String::from_str("byte")), String::from_str("type0003")));
    items.push(plain_completion(String::from_str("浮点数"), CompletionItemKind::TypeParameter, Some(String::from_str("float")), String::from_str("type0004")));
    items.push(plain_completion(String::from_str("布尔"), CompletionItemKind::TypeParameter, Some(String::from_str("boolean")), String::from_str("type0005")));
    items.push(plain_completion(String::from_str("字符"), CompletionItemKind::TypeParameter, Some(String::from_str("character")), String::from_str("type0006")));
    items.push(plain_completion(String::from_str("字符串"), CompletionItemKind::TypeParameter, Some(String::from_str("string")), String::from_str("type0007")));
    items.push(plain_completion(String::from_str("空"), CompletionItemKind::TypeParameter, Some(String::from_str("void")), String::from_str("type0008")));
    items.push(plain_completion(String::from_str("数组"), CompletionItemKind::TypeParameter, Some(String::from_str("array")), String::from_str("type0009")));
    items.push(plain_completion(String::from_str("字典"), CompletionItemKind::TypeParameter, Some(String::from_str("dictionary")), String::from_str("type0010")));
    items.push(plain_completion(String::from_str("列表"), CompletionItemKind::TypeParameter, Some(String::from_str("list")), String::from_str("type0011")));
    items.push(plain_completion(String::from_str("集合"), CompletionItemKind::TypeParameter, Some(String::from_str("set")), String::from_str("type0012")));
    items.push(plain_completion(String::from_str("指针"), CompletionItemKind::TypeParameter, Some(String::from_str("pointer")), String::from_str("type0013")));
    items.push(plain_completion(String::from_str("引用"), CompletionItemKind::TypeParameter, Some(String::from_str("reference")), String::from_str("type0014")));
    items.push(plain_completion(String::from_str("可变引用"), CompletionItemKind::TypeParameter, Some(String::from_str("mutable reference")), String::from_str("type0015")));
    assert(items_view(items@) =~= spec_type_items());
    items
}

/// The module completions of an import, in order.
pub open spec fn spec_import_items() -> Seq<CompletionView> {
    seq![
        plain_item("标准库.输入输出"@, CompletionItemKind::Module, Some("I/O 输入输出"@), "module标准库.输入输出"@),
        plain_item("标准库.字符串"@, CompletionItemKind::Module, Some("字符串处理"@), "module标准库.字符串"@),
        plain_item("标准库.数学"@, CompletionItemKind::Module, Some("数学运算"@), "module标准库.数学"@),
        plain_item("标准库.日期"@, CompletionItemKind::Module, Some("日期时间"@), "module标准库.日期"@),
        plain_item("标准库.随机"@, CompletionItemKind::Module, Some("随机数生成"@), "module标准库.随机"@),
        plain_item("标准库.哈希表"@, CompletionItemKind::Module, Some("哈希表"@), "module标准库.哈希表"@),
        plain_item("标准库.向量"@, CompletionItemKind::Module, Some("动态数组"@), "module标准库.向量"@),
        plain_item("标准库.文件"@, CompletionItemKind::Module, Some("文件读写（输入输出别名）"@), "module标准库.文件"@),
        plain_item("标准库.路径"@, CompletionItemKind::Module, Some("路径处理"@), "module标准库.路径"@),
        plain_item("标准库.操作系统"@, CompletionItemKind::Module, Some("操作系统接口"@), "module标准库.操作系统"@),
        plain_item("标准库.进程"@, CompletionItemKind::Module, Some("进程管理"@), "module标准库.进程"@),
        plain_item("标准库.环境"@, CompletionItemKind::Module, Some("环境变量"@), "module标准库.环境"@),
        plain_item("标准库.配置"@, CompletionItemKind::Module, Some("配置文件读取"@), "module标准库.配置"@),
        plain_item("标准库.网络"@, CompletionItemKind::Module, Some("TCP/UDP 网络"@), "module标准库.网络"@),
        plain_item("标准库.HTTP"@, CompletionItemKind::Module, Some("HTTP 客户端/服务端"@), "module标准库.HTTP"@),
        plain_item("标准库.并发"@, CompletionItemKind::Module, Some("协程与同步原语"@), "module标准库.并发"@),
        plain_item("标准库.JSON"@, CompletionItemKind::Module, Some("JSON 序列化/反序列化"@), "module标准库.JSON"@),
        plain_item("标准库.正则"@, CompletionItemKind::Module, Some("正则表达式"@), "module标准库.正则"@),
        plain_item("标准库.压缩"@, CompletionItemKind::Module, Some("数据压缩/解压"@), "module标准库.压缩"@),
        plain_item("标准库.加密"@, CompletionItemKind::Module, Some("加密与哈希"@), "module标准库.加密"@),
        plain_item("标准库.数据库"@, CompletionItemKind::Module, Some("数据库访问"@), "module标准库.数据库"@),
        plain_item("标准库.大模型"@, CompletionItemKind::Module, Some("LLM 大语言模型接口"@), "module标准库.大模型"@),
        plain_item("标准库.MCP服务器"@, CompletionItemKind::Module, Some("MCP 协议服务器"@), "module标准库.MCP服务器"@),
        plain_item("标准库.图形化"@, CompletionItemKind::Module, Some("GUI 图形界面"@), "module标准库.图形化"@),
        plain_item("标准库.命令行"@, CompletionItemKind::Module, Some("命令行参数解析"@), "module标准库.命令行"@),
        plain_item("标准库.测试"@, CompletionItemKind::Module, Some("单元测试框架"@), "module标准库.测试"@),
    ]
}

/// Get import completions.
pub fn get_import_completions() -> (r: Vec<CompletionItem>)
    ensures
        items_view(r@) == spec_import_items(),
{
    let mut items: Vec<CompletionItem> = Vec::new();
    items.push(plain_completion(String::from_str("标准库.输入输出"), CompletionItemKind::Module, Some(String::from_str("I/O 输入输出")), String::from_str("module标准库.输入输出")));
    items.push(plain_completion(String::from_str("标准库.字符串"), CompletionItemKind::Module, Some(String::from_str("字符串处理")), String::from_str("module标准库.字符串")));
    items.push(plain_completion(String::from_str("标准库.数学"), CompletionItemKind::Module, Some(String::from_str("数学运算")), String::from_str("module标准库.数学")));
    items.push(plain_completion(String::from_str("标准库.日期"), CompletionItemKind::Module, Some(String::from_str("日期时间")), String::from_str("module标准库.日期")));
    items.push(plain_completion(String::from_str("标准库.随机"), CompletionItemKind::Module, Some(String::from_str("随机数生成")), String::from_str("module标准库.随机")));
    items.push(plain_completion(String::from_str("标准库.哈希表"), CompletionItemKind::Module, Some(String::from_str("哈希表")), String::from_str("module标准库.哈希表")));
    items.push(plain_completion(String::from_str("标准库.向量"), CompletionItemKind::Module, Some(String::from_str("动态数组")), String::from_str("module标准库.向量")));
    items.push(plain_completion(String::from_str("标准库.文件"), CompletionItemKind::Module, Some(String::from_str("文件读写（输入输出别名）")), String::from_str("module标准库.文件")));
    items.push(plain_completion(String::from_str("标准库.路径"), CompletionItemKind::Module, Some(String::from_str("路径处理")), String::from_str("module标准库.路径")));
    items.push(plain_completion(String::from_str("标准库.操作系统"), CompletionItemKind::Module, Some(String::from_str("操作系统接口")), String::from_str("module标准库.操作系统")));
    items.push(plain_completion(String::from_str("标准库.进程"), CompletionItemKind::Module, Some(String::from_str("进程管理")), String::from_str("module标准库.进程")));
    items.push(plain_completion(String::from_str("标准库.环境"), CompletionItemKind::Module, Some(String::from_str("环境变量")), String::from_str("module标准库.环境")));
    items.push(plain_completion(String::from_str("标准库.配置"), CompletionItemKind::Module, Some(String::from_str("配置文件读取")), String::from_str("module标准库.配置")));
    items.push(plain_completion(String::from_str("标准库.网络"), CompletionItemKind::Module, Some(String::from_str("TCP/UDP 网络")), String::from_str("module标准库.网络")));
    items.push(plain_completion(String::from_str("标准库.HTTP"), CompletionItemKind::Module, Some(String::from_str("HTTP 客户端/服务端")), String::from_str("module标准库.HTTP")));
    items.push(plain_completion(String::from_str("标准库.并发"), CompletionItemKind::Module, Some(String::from_str("协程与同步原语")), String::from_str("module标准库.并发")));
    items.push(plain_completion(String::from_str("标准库.JSON"), CompletionItemKind::Module, Some(String::from_str("JSON 序列化/反序列化")), String::from_str("module标准库.JSON")));
    items.push(plain_completion(String::from_str("标准库.正则"), CompletionItemKind::Module, Some(String::from_str("正则表达式")), String::from_str("module标准库.正则")));
    items.push(plain_completion(String::from_str("标准库.压缩"), CompletionItemKind::Module, Some(String::from_str("数据压缩/解压")), String::from_str("module标准库.压缩")));
    items.push(plain_completion(String::from_str("标准库.加密"), CompletionItemKind::Module, Some(String::from_str("加密与哈希")), String::from_str("module标准库.加密")));
    items.push(plain_completion(String::from_str("标准库.数据库"), CompletionItemKind::Module, Some(String::from_str("数据库访问")), String::from_str("module标准库.数据库")));
    items.push(plain_completion(String::from_str("标准库.大模型"), CompletionItemKind::Module, Some(String::from_str("LLM 大语言模型接口")), String::from_str("module标准库.大模型")));
    items.push(plain_completion(String::from_str("标准库.MCP服务器"), CompletionItemKind::Module, Some(String::from_str("MCP 协议服务器")), String::from_str("module标准库.MCP服务器")));
    items.push(plain_completion(String::from_str("标准库.图形化"), CompletionItemKind::Module, Some(String::from_str("GUI 图形界面")), String::from_str("module标准库.图形化")));
    items.push(plain_completion(String::from_str("标准库.命令行"), CompletionItemKind::Module, Some(String::from_str("命令行参数解析")), String::from_str("module标准库.命令行")));
    items.push(plain_completion(String::from_str("标准库.测试"), CompletionItemKind::Module, Some(String::from_str("单元测试框架")), String::from_str("module标准库.测试")));
    assert(items_view(items@) =~= spec_import_items());
    items
}

/// The package name completions, in order.
pub open spec fn spec_package_items() -> Seq<CompletionView> {
    seq![
        plain_item("主程序"@, CompletionItemKind::Module, Some("main package"@), "pkg主程序"@),
        plain_item("库"@, CompletionItemKind::Module, Some("library package"@), "pkg库"@),
        plain_item("测试"@, CompletionItemKind::Module, Some("test package"@), "pkg测试"@),
        plain_item("示例"@, CompletionItemKind::Module, Some("example package"@), "pkg示例"@),
    ]
}

/// Get package completions.
pub fn get_package_completions() -> (r: Vec<CompletionItem>)
    ensures
        items_view(r@) == spec_package_items(),
{
    let mut items: Vec<CompletionItem> = Vec::new();
    items.push(plain_completion(String::from_str("主程序"), CompletionItemKind::Module, Some(String::from_str("main package")), String::from_str("pkg主程序")));
    items.push(plain_completion(String::from_str("库"), CompletionItemKind::Module, Some(String::from_str("library package")), String::from_str("pkg库")));
    items.push(plain_completion(String::from_str("测试"), CompletionItemKind::Module, Some(String::from_str("test package")), String::from_str("pkg测试")));
    items.push(plain_completion(String::from_str("示例"), CompletionItemKind::Module, Some(String::from_str("example package")), String::from_str("pkg示例")));
    assert(items_view(items@) =~= spec_package_items());
    items
}

/// A parameter as `name: type`, `_` for a missing type.
pub open spec fn plain_param(p: Parameter) -> Seq<char> {
    p.name@ + ": "@ + match p.type_annotation {
        Some(t) => spec_type_text_plain(t.node),
        None => "_"@,
    }
}

/// ` -> type` for a return type, nothing without one.
pub open spec fn plain_return(t: Option<crate::ast::TypeAnnotation>) -> Seq<char> {
    match t {
        Some(a) => " -> "@ + spec_type_text_plain(a.node),
        None => Seq::empty(),
    }
}

/// The completion item of a function.
pub open spec fn function_item(f: crate::ast::FunctionDeclaration) -> CompletionView {
    plain_item(
        f.name@,
        CompletionItemKind::Function,
        Some("函数"@ + spec_join(f.parameters@.map_values(|p: Parameter| plain_param(p)), ", "@) + plain_return(f.return_type)),
        "func"@ + f.name@,
    )
}

/// The functions declared at the top of a program, as completion items.
pub open spec fn function_items(ns: Seq<AstNode>) -> Seq<CompletionView>
    decreases ns.len(),
{
    if ns.len() == 0 {
        Seq::empty()
    } else {
        function_items(ns.drop_last()) + match ns.last() {
            AstNode::FunctionDecl(f) => seq![function_item(f)],
            _ => Seq::empty(),
        }
    }
}

fn plain_params(ps: &Vec<Parameter>) -> (r: String)
    ensures
        r@ == spec_join(ps@.map_values(|p: Parameter| plain_param(p)), ", "@),
{
    let ghost want = ps@.map_values(|p: Parameter| plain_param(p));
    let mut out: Vec<String> = Vec::new();
    let mut i: usize = 0;
    while i < ps.len()
        invariant
            i <= ps@.len(),
            out@.len() == i,
            want == ps@.map_values(|p: Parameter| plain_param(p)),
            views(out@) == want.take(i as int),
        decreases ps.len() - i,
    {
        let p = &ps[i];
        let t = match &p.type_annotation {
            Some(t) => format_type_plain(&t.node),
            None => String::from_str("_"),
        };
        let s = p.name.clone().concat(": ").concat(t.as_str());
        let ghost old_out = out@;
        out.push(s);
        proof {
            assert(views(out@)[i as int] == s@);
            assert(views(out@).drop_last() =~= views(old_out));
            assert(views(out@) =~= want.take(i + 1));
        }
        i = i + 1;
    }
    proof {
        assert(want.take(ps@.len() as int) =~= want);
    }
    join(&out, ", ")
}

fn push_item(items: &mut Vec<CompletionItem>, item: CompletionItem)
    ensures
        items_view(final(items)@) == items_view(old(items)@).push(item@),
{
    items.push(item);
    assert(items_view(items@) =~= items_view(old(items)@).push(item@));
}

fn append_items(items: &mut Vec<CompletionItem>, more: Vec<CompletionItem>)
    ensures
        items_view(final(items)@) == items_view(old(items)@) + items_view(more@),
{
    let mut more = more;
    let ghost m = more@;
    items.append(&mut more);
    assert(items_view(items@) =~= items_view(old(items)@) + items_view(m));
}

/// Get function completions from the syntax tree.
pub fn get_function_completions(ast: &Program) -> (r: Vec<CompletionItem>)
    ensures
        items_view(r@) == function_items(ast.statements@),
{
    let mut items: Vec<CompletionItem> = Vec::new();
    let mut i: usize = 0;
    while i < ast.statements.len()
        invariant
            i <= ast.statements@.len(),
            items_view(items@) == function_items(ast.statements@.take(i as int)),
        decreases ast.statements.len() - i,
    {
        proof {
            assert(ast.statements@.take(i + 1).drop_last() =~= ast.statements@.take(i as int));
        }
        match &ast.statements[i] {
            AstNode::FunctionDecl(f) => {
                let detail = String::from_str("函数").concat(plain_params(&f.parameters).as_str()).concat(
                    match &f.return_type {
                        Some(t) => String::from_str(" -> ").concat(format_type_plain(&t.node).as_str()),
                        None => String::new(),
                    }.as_str(),
                );
                let item = plain_completion(
                    f.name.clone(),
                    CompletionItemKind::Function,
                    Some(detail),
                    String::from_str("func").concat(f.name.as_str()),
                );
                push_item(&mut items, item);
            },
            _ => {
                assert(items_view(items@) =~= items_view(items@) + Seq::<CompletionView>::empty());
            },
        }
        i = i + 1;
    }
    assert(ast.statements@.take(ast.statements@.len() as int) =~= ast.statements@);
    items
}

/// The field and method items of a struct declaration.
pub open spec fn struct_member_items(sd: crate::ast::StructDeclaration) -> Seq<CompletionView> {
    sd.fields@.map_values(
        |f: crate::ast::StructField|
            plain_item(
                f.name@,
                CompletionItemKind::Field,
                Some("字段: "@ + spec_type_text_plain(f.type_annotation.node)),
                "field"@ + f.name@,
            ),
    ) + sd.methods@.map_values(
        |m: crate::ast::MethodDeclaration|
            plain_item(
                m.method_name@,
                CompletionItemKind::Method,
                Some("方法: "@ + m.method_name@),
                "method"@ + m.method_name@,
            ),
    )
}

/// The members of the top-level structs named `name`, as completion items.
pub open spec fn field_items(ns: Seq<AstNode>, name: Seq<char>) -> Seq<CompletionView>
    decreases ns.len(),
{
    if ns.len() == 0 {
        Seq::empty()
    } else {
        field_items(ns.drop_last(), name) + match ns.last() {
            AstNode::StructDecl(sd) => if sd.name@ == name {
                struct_member_items(sd)
            } else {
                Seq::empty()
            },
            _ => Seq::empty(),
        }
    }
}

fn struct_members(sd: &crate::ast::StructDeclaration) -> (r: Vec<CompletionItem>)
    ensures
        items_view(r@) == struct_member_items(*sd),
{
    let ghost fw = sd.fields@.map_values(
        |f: crate::ast::StructField|
            plain_item(
                f.name@,
                CompletionItemKind::Field,
                Some("字段: "@ + spec_type_text_plain(f.type_annotation.node)),
                "field"@ + f.name@,
            ),
    );
    let ghost mw = sd.methods@.map_values(
        |m: crate::ast::MethodDeclaration|
            plain_item(
                m.method_name@,
                CompletionItemKind::Method,
                Some("方法: "@ + m.method_name@),
                "method"@ + m.method_name@,
            ),
    );
    let mut items: Vec<CompletionItem> = Vec::new();
    let mut i: usize = 0;
    while i < sd.fields.len()
        invariant
            i <= sd.fields@.len(),
            fw == sd.fields@.map_values(
                |f: crate::ast::StructField|
                    plain_item(
                        f.name@,
                        CompletionItemKind::Field,
                        Some("字段: "@ + spec_type_text_plain(f.type_annotation.node)),
                        "field"@ + f.name@,
                    ),
            ),
            items_view(items@) == fw.take(i as int),
        decreases sd.fields.len() - i,
    {
        let f = &sd.fields[i];
        let item = plain_completion(
            f.name.clone(),
            CompletionItemKind::Field,
            Some(String::from_str("字段: ").concat(format_type_plain(&f.type_annotation.node).as_str())),
            String::from_str("field").concat(f.name.as_str()),
        );
        push_item(&mut items, item);
        assert(fw.take(i + 1) =~= fw.take(i as int).push(fw[i as int]));
        i = i + 1;
    }
    assert(fw.take(sd.fields@.len() as int) =~= fw);
    let mut j: usize = 0;
    assert(fw + mw.take(0) =~= fw);
    while j < sd.methods.len()
        invariant
            j <= sd.methods@.len(),
            mw == sd.methods@.map_values(
                |m: crate::ast::MethodDeclaration|
                    plain_item(
                        m.method_name@,
                        CompletionItemKind::Method,
                        Some("方法: "@ + m.method_name@),
                        "method"@ + m.method_name@,
                    ),
            ),
            items_view(items@) == fw + mw.take(j as int),
        decreases sd.methods.len() - j,
    {
        let m = &sd.methods[j];
        let item = plain_completion(
            m.method_name.clone(),
            CompletionItemKind::Method,
            Some(String::from_str("方法: ").concat(m.method_name.as_str())),
            String::from_str("method").concat(m.method_name.as_str()),
        );
        push_item(&mut items, item);
        assert(fw + mw.take(j + 1) =~= (fw + mw.take(j as int)).push(mw[j as int]));
        j = j + 1;
    }
    assert(mw.take(sd.methods@.len() as int) =~= mw);
    items
}

/// Get the field and method completions of a struct.
pub fn get_field_completions(ast: &Program, struct_name: &str) -> (r: Vec<CompletionItem>)
    ensures
        items_view(r@) == field_items(ast.statements@, struct_name@),
{
    let mut items: Vec<CompletionItem> = Vec::new();
    let mut i: usize = 0;
    while i < ast.statements.len()
        invariant
            i <= ast.statements@.len(),
            items_view(items@) == field_items(ast.statements@.take(i as int), struct_name@),
        decreases ast.statements.len() - i,
    {
        proof {
            assert(ast.statements@.take(i + 1).drop_last() =~= ast.statements@.take(i as int));
        }
        match &ast.statements[i] {
            AstNode::StructDecl(sd) => {
                if text_eq(sd.name.as_str(), struct_name) {
                    append_items(&mut items, struct_members(sd));
                } else {
                    assert(items_view(items@) =~= items_view(items@) + Seq::<CompletionView>::empty());
                }
            },
            _ => {
                assert(items_view(items@) =~= items_view(items@) + Seq::<CompletionView>::empty());
            },
        }
        i = i + 1;
    }
    assert(ast.statements@.take(ast.statements@.len() as int) =~= ast.statements@);
    items
}

/// The methods of a struct declaration, named with the struct, as items.
pub open spec fn struct_method_items(sd: crate::ast::StructDeclaration) -> Seq<CompletionView> {
    sd.methods@.map_values(
        |m: crate::ast::MethodDeclaration|
            plain_item(
                m.method_name@,
                CompletionItemKind::Method,
                Some("方法: "@ + sd.name@ + "."@ + m.method_name@),
                "method"@ + m.method_name@,
            ),
    )
}

/// The methods of every top-level struct, as completion items.
pub open spec fn method_items(ns: Seq<AstNode>) -> Seq<CompletionView>
    decreases ns.len(),
{
    if ns.len() == 0 {
        Seq::empty()
    } else {
        method_items(ns.drop_last()) + match ns.last() {
            AstNode::StructDecl(sd) => struct_method_items(sd),
            _ => Seq::empty(),
        }
    }
}

fn struct_methods(sd: &crate::ast::StructDeclaration) -> (r: Vec<CompletionItem>)
    ensures
        items_view(r@) == struct_method_items(*sd),
{
    let ghost mw = struct_method_items(*sd);
    let mut items: Vec<CompletionItem> = Vec::new();
    let mut j: usize = 0;
    while j < sd.methods.len()
        invariant
            j <= sd.methods@.len(),
            mw == struct_method_items(*sd),
            items_view(items@) == mw.take(j as int),
        decreases sd.methods.len() - j,
    {
        let m = &sd.methods[j];
        let item = plain_completion(
            m.method_name.clone(),
            CompletionItemKind::Method,
            Some(String::from_str("方法: ").concat(sd.name.as_str()).concat(".").concat(m.method_name.as_str())),
            String::from_str("method").concat(m.method_name.as_str()),
        );
        push_item(&mut items, item);
        assert(mw.take(j + 1) =~= mw.take(j as int).push(mw[j as int]));
        j = j + 1;
    }
    assert(mw.take(sd.methods@.len() as int) =~= mw);
    items
}

/// Get the methods of every struct as completions.
pub fn get_method_completions(ast: &Program) -> (r: Vec<CompletionItem>)
    ensures
        items_view(r@) == method_items(ast.statements@),
{
    let mut items: Vec<CompletionItem> = Vec::new();
    let mut i: usize = 0;
    while i < ast.statements.len()
        invariant
            i <= ast.statements@.len(),
            items_view(items@) == method_items(ast.statements@.take(i as int)),
        decreases ast.statements.len() - i,
    {
        proof {
            assert(ast.statements@.take(i + 1).drop_last() =~= ast.statements@.take(i as int));
        }
        match &ast.statements[i] {
            AstNode::StructDecl(sd) => {
                append_items(&mut items, struct_methods(sd));
            },
            _ => {
                assert(items_view(items@) =~= items_view(items@) + Seq::<CompletionView>::empty());
            },
        }
        i = i + 1;
    }
    assert(ast.statements@.take(ast.statements@.len() as int) =~= ast.statements@);
    items
}

/// The variables, structs and enums declared at the top of a program, as
/// completion items.
pub open spec fn scope_items(ns: Seq<AstNode>) -> Seq<CompletionView>
    decreases ns.len(),
{
    if ns.len() == 0 {
        Seq::empty()
    } else {
        scope_items(ns.drop_last()) + match ns.last() {
            AstNode::VariableDecl(v) => seq![
                plain_item(
                    v.name@,
                    CompletionItemKind::Variable,
                    match v.type_annotation {
                        Some(t) => Some("变量: "@ + spec_type_text_plain(t.node)),
                        None => None,
                    },
                    "var"@ + v.name@,
                ),
            ],
            AstNode::StructDecl(sd) => seq![
                plain_item(sd.name@, CompletionItemKind::Struct, Some("结构体"@), "struct"@ + sd.name@),
            ],
            AstNode::EnumDecl(e) => seq![
                plain_item(e.name@, CompletionItemKind::Enum, Some("枚举"@), "enum"@ + e.name@),
            ],
            _ => Seq::empty(),
        }
    }
}

/// Get completions for the symbols declared at the top of a program.
pub fn get_scope_completions(ast: &Program, uri: &str, position: Position, document_manager: &DocumentManager) -> (r:
    Vec<CompletionItem>)
    ensures
        items_view(r@) == scope_items(ast.statements@),
{
    let mut items: Vec<CompletionItem> = Vec::new();
    let mut i: usize = 0;
    while i < ast.statements.len()
        invariant
            i <= ast.statements@.len(),
            items_view(items@) == scope_items(ast.statements@.take(i as int)),
        decreases ast.statements.len() - i,
    {
        proof {
            assert(ast.statements@.take(i + 1).drop_last() =~= ast.statements@.take(i as int));
        }
        match &ast.statements[i] {
            AstNode::VariableDecl(v) => {
                let detail = match &v.type_annotation {
                    Some(t) => Some(String::from_str("变量: ").concat(format_type_plain(&t.node).as_str())),
                    None => None,
                };
                let item = plain_completion(
                    v.name.clone(),
                    CompletionItemKind::Variable,
                    detail,
                    String::from_str("var").concat(v.name.as_str()),
                );
                push_item(&mut items, item);
            },
            AstNode::StructDecl(sd) => {
                let item = plain_completion(
                    sd.name.clone(),
                    CompletionItemKind::Struct,
                    Some(String::from_str("结构体")),
                    String::from_str("struct").concat(sd.name.as_str()),
                );
                push_item(&mut items, item);
            },
            AstNode::EnumDecl(e) => {
                let item = plain_completion(
                    e.name.clone(),
                    CompletionItemKind::Enum,
                    Some(String::from_str("枚举")),
                    String::from_str("enum").concat(e.name.as_str()),
                );
                push_item(&mut items, item);
            },
            _ => {
                assert(items_view(items@) =~= items_view(items@) + Seq::<CompletionView>::empty());
            },
        }
        i = i + 1;
    }
    assert(ast.statements@.take(ast.statements@.len() as int) =~= ast.statements@);
    items
}

/// A simple completion item that inserts its label.
pub fn create_simple_completion(label: &str, kind: CompletionItemKind, detail: Option<&str>) -> (r: CompletionItem)
    ensures
        r@ == plain_item(
            label@,
            kind,
            match detail {
                Some(d) => Some(d@),
                None => None,
            },
            label@,
        ),
{
    let d = match detail {
        Some(d) => Some(String::from_str(d)),
        None => None,
    };
    plain_completion(String::from_str(label), kind, d, String::from_str(label))
}

/// A snippet completion item.
pub open spec fn snippet_item(label: Seq<char>, kind: CompletionItemKind, detail: Option<Seq<char>>, insert: Seq<char>) -> CompletionView {
    CompletionView {
        label,
        kind: Some(kind),
        detail,
        deprecated: Some(false),
        preselect: Some(false),
        sort_text: Some(label),
        filter_text: Some(label),
        insert_text: Some(insert),
        insert_text_format: Some(InsertTextFormat::Snippet),
        insert_text_mode: Some(InsertTextMode::AdjustIndentation),
    }
}

/// A snippet completion item.
pub fn create_snippet_completion(label: &str, kind: CompletionItemKind, detail: Option<&str>, insert_text: &str) -> (r:
    CompletionItem)
    ensures
        r@ == snippet_item(
            label@,
            kind,
            match detail {
                Some(d) => Some(d@),
                None => None,
            },
            insert_text@,
        ),
{
    CompletionItem {
        label: String::from_str(label),
        kind: Some(kind),
        detail: match detail {
            Some(d) => Some(String::from_str(d)),
            None => None,
        },
        deprecated: Some(false),
        preselect: Some(false),
        sort_text: Some(String::from_str(label)),
        filter_text: Some(String::from_str(label)),
        insert_text: Some(String::from_str(insert_text)),
        insert_text_format: Some(InsertTextFormat::Snippet),
        insert_text_mode: Some(InsertTextMode::AdjustIndentation),
    }
}

/// What the text before the cursor calls for.
#[derive(Debug, Clone)]
pub enum CompletionContext {
    VariableDeclaration,
    FunctionCall,
    StructFieldAccess { struct_name: String },
    MethodAccess,
    ImportStatement,
    PackageDeclaration,
    VariableReference,
    General,
}

/// A completion context, as values.
pub enum ContextView {
    VariableDeclaration,
    FunctionCall,
    StructFieldAccess { struct_name: Seq<char> },
    MethodAccess,
    ImportStatement,
    PackageDeclaration,
    VariableReference,
    General,
}

impl View for CompletionContext {
    type V = ContextView;

    open spec fn view(&self) -> ContextView {
        match self {
            CompletionContext::VariableDeclaration => ContextView::VariableDeclaration,
            CompletionContext::FunctionCall => ContextView::FunctionCall,
            CompletionContext::StructFieldAccess { struct_name } => ContextView::StructFieldAccess {
                struct_name: struct_name@,
            },
            CompletionContext::MethodAccess => ContextView::MethodAccess,
            CompletionContext::ImportStatement => ContextView::ImportStatement,
            CompletionContext::PackageDeclaration => ContextView::PackageDeclaration,
            CompletionContext::VariableReference => ContextView::VariableReference,
            CompletionContext::General => ContextView::General,
        }
    }
}

/// A text without its trailing white space.
pub open spec fn trim_end_space(s: Seq<char>) -> Seq<char>
    decreases s.len(),
{
    if s.len() > 0 && spec_char_is_whitespace(s.last()) {
        trim_end_space(s.drop_last())
    } else {
        s
    }
}

/// A text without white space at either end.
pub open spec fn trim_space(s: Seq<char>) -> Seq<char> {
    trim_start(trim_end_space(s))
}

/// The text ends with `c`.
pub open spec fn ends_with_char(s: Seq<char>, c: char) -> bool {
    s.len() > 0 && s.last() == c
}

/// A character that ends the name before a dot, scanning backwards: white
/// space, `=`, a bracket, or an earlier dot (the name is the last segment
/// of a dotted path).
pub open spec fn name_stop(c: char) -> bool {
    spec_char_is_whitespace(c) || c == '=' || c == '(' || c == ')' || c == '{' || c == '}' || c == '.'
}

/// The characters at the end of a text up to the last stop character.
pub open spec fn trailing_name(t: Seq<char>) -> Seq<char>
    decreases t.len(),
{
    if t.len() == 0 || name_stop(t.last()) {
        Seq::empty()
    } else {
        trailing_name(t.drop_last()).push(t.last())
    }
}

/// The name before the trailing dots of a text, if any.
pub open spec fn spec_struct_name_before_dot(text: Seq<char>) -> Option<Seq<char>> {
    let t = trim_end_char(text, '.');
    if t.len() == 0 || trailing_name(t).len() == 0 {
        None
    } else {
        Some(trailing_name(t))
    }
}

/// Extract the name before a dot.
pub fn extract_struct_name_before_dot(text: &str) -> (r: Option<String>)
    ensures
        match spec_struct_name_before_dot(text@) {
            Some(n) => r matches Some(s) && s@ == n,
            None => r is None,
        },
{
    let cs = chars_vec(text);
    let n = trimmed_end_len(cs.as_slice(), cs.len(), '.');
    assert(cs@.subrange(0, cs@.len() as int) =~= cs@);
    let ghost t = cs@.subrange(0, n as int);
    if n == 0 {
        return None;
    }
    let mut start = n;
    while start > 0
        invariant
            start <= n <= cs@.len(),
            t == cs@.subrange(0, n as int),
            trailing_name(t) == trailing_name(cs@.subrange(0, start as int)) + cs@.subrange(start as int, n as int),
        ensures
            start <= n,
            trailing_name(t) == cs@.subrange(start as int, n as int),
        decreases start,
    {
        let ch = cs[start - 1];
        proof {
            assert(cs@.subrange(0, start as int).drop_last() =~= cs@.subrange(0, start - 1));
            assert(cs@.subrange(0, start as int).last() == ch);
        }
        if char_is_whitespace(ch) || ch == '=' || ch == '(' || ch == ')' || ch == '{' || ch == '}' || ch == '.' {
            assert(trailing_name(cs@.subrange(0, start as int)) =~= Seq::<char>::empty());
            assert(trailing_name(t) =~= cs@.subrange(start as int, n as int));
            break;
        }
        assert(cs@.subrange(start - 1, n as int) =~= seq![ch] + cs@.subrange(start as int, n as int));
        assert(trailing_name(cs@.subrange(0, start as int)) + cs@.subrange(start as int, n as int) =~= trailing_name(
            cs@.subrange(0, start - 1),
        ) + cs@.subrange(start - 1, n as int));
        start = start - 1;
    }
    if start == n {
        None
    } else {
        Some(string_from_range(cs.as_slice(), start, n))
    }
}

/// The text ends in a name: it is blank once trimmed, or its last
/// character is a letter, `_` or a CJK ideograph.
pub open spec fn spec_is_identifier_context(text: Seq<char>) -> bool {
    let t = trim_space(text);
    t.len() == 0 || spec_char_is_alphabetic(t.last()) || t.last() == '_' || (0x4E00 <= (t.last() as u32)
        && (t.last() as u32) <= 0x9FFF)
}

fn trim_end_space_len(cs: &Vec<char>) -> (r: usize)
    ensures
        r <= cs@.len(),
        cs@.subrange(0, r as int) == trim_end_space(cs@),
{
    let mut n = cs.len();
    assert(cs@.subrange(0, n as int) =~= cs@);
    while n > 0 && char_is_whitespace(cs[n - 1])
        invariant
            n <= cs@.len(),
            trim_end_space(cs@) == trim_end_space(cs@.subrange(0, n as int)),
        decreases n,
    {
        assert(cs@.subrange(0, n as int).drop_last() =~= cs@.subrange(0, n - 1));
        n = n - 1;
    }
    n
}

fn trim_start_len(cs: &Vec<char>, end: usize) -> (r: usize)
    requires
        end <= cs@.len(),
    ensures
        r <= end,
        cs@.subrange(r as int, end as int) == trim_start(cs@.subrange(0, end as int)),
{
    let mut k: usize = 0;
    assert(cs@.subrange(0, end as int).skip(0) =~= cs@.subrange(0, end as int));
    while k < end && char_is_whitespace(cs[k])
        invariant
            k <= end <= cs@.len(),
            trim_start(cs@.subrange(0, end as int)) == trim_start(cs@.subrange(k as int, end as int)),
        decreases end - k,
    {
        assert(cs@.subrange(k as int, end as int).skip(1) =~= cs@.subrange(k + 1, end as int));
        k = k + 1;
    }
    k
}

/// Check if the text ends in a name.
pub fn is_identifier_context(text: &str) -> (r: bool)
    ensures
        r == spec_is_identifier_context(text@),
{
    let cs = chars_vec(text);
    let e = trim_end_space_len(&cs);
    let k = trim_start_len(&cs, e);
    proof {
        assert(cs@.subrange(0, e as int) == trim_end_space(text@));
    }
    if k == e {
        return true;
    }
    let last = cs[e - 1];
    assert(trim_space(text@).last() == last);
    char_is_alphabetic(last) || last == '_' || (last as u32 >= 0x4E00 && last as u32 <= 0x9FFF)
}

/// The completion context the text before the cursor calls for.
pub open spec fn spec_analyze_context(before: Seq<char>) -> ContextView {
    let t = trim_end_space(before);
    if ends_with_char(t, ':') {
        ContextView::VariableDeclaration
    } else if ends_with_char(t, '.') {
        match spec_struct_name_before_dot(t) {
            Some(n) => ContextView::StructFieldAccess { struct_name: n },
            None => ContextView::MethodAccess,
        }
    } else if ends_with_char(t, '(') {
        ContextView::FunctionCall
    } else if begins_with(t, "导入"@) || begins_with(t, "import"@) {
        ContextView::ImportStatement
    } else if begins_with(t, "包"@) || begins_with(t, "package"@) {
        ContextView::PackageDeclaration
    } else if spec_is_identifier_context(t) {
        ContextView::VariableReference
    } else {
        ContextView::General
    }
}

fn text_begins_with(cs: &Vec<char>, n: usize, p: &str) -> (r: bool)
    requires
        n <= cs@.len(),
    ensures
        r == begins_with(cs@.subrange(0, n as int), p@),
{
    let pv = chars_vec(p);
    if pv.len() > n {
        return false;
    }
    let r = chars_have_prefix_at(cs.as_slice(), 0, pv.as_slice());
    assert(cs@.subrange(0, n as int).subrange(0, pv@.len() as int) =~= cs@.subrange(0, pv@.len() as int));
    r
}

/// Analyze the completion context from the text before the cursor.
pub fn analyze_completion_context(before_cursor: &str, uri: &str, position: Position, document_manager: &DocumentManager) -> (r:
    CompletionContext)
    ensures
        r@ == spec_analyze_context(before_cursor@),
{
    let cs = chars_vec(before_cursor);
    let n = trim_end_space_len(&cs);
    let ghost t = cs@.subrange(0, n as int);
    assert(t == trim_end_space(before_cursor@));
    if n > 0 && cs[n - 1] == ':' {
        return CompletionContext::VariableDeclaration;
    }
    if n > 0 && cs[n - 1] == '.' {
        let trimmed = string_from_range(cs.as_slice(), 0, n);
        return match extract_struct_name_before_dot(trimmed.as_str()) {
            Some(struct_name) => CompletionContext::StructFieldAccess { struct_name },
            None => CompletionContext::MethodAccess,
        };
    }
    if n > 0 && cs[n - 1] == '(' {
        return CompletionContext::FunctionCall;
    }
    if text_begins_with(&cs, n, "导入") || text_begins_with(&cs, n, "import") {
        return CompletionContext::ImportStatement;
    }
    if text_begins_with(&cs, n, "包") || text_begins_with(&cs, n, "package") {
        return CompletionContext::PackageDeclaration;
    }
    let trimmed = string_from_range(cs.as_slice(), 0, n);
    if is_identifier_context(trimmed.as_str()) {
        CompletionContext::VariableReference
    } else {
        CompletionContext::General
    }
}

/// The text of the cursor's line before the cursor, the cursor's character
/// taken as a character index (no further than the line's end); empty when
/// the line does not exist.
pub open spec fn spec_before_cursor(dm: DocumentManager, uri: Seq<char>, position: Position) -> Seq<char> {
    match spec_doc_line(dm, uri, position.line as int) {
        Some(line) => line.take(
            if position.character <= line.len() {
                position.character as int
            } else {
                line.len() as int
            },
        ),
        None => Seq::empty(),
    }
}

/// Compute the text before the cursor.
pub fn text_before_cursor(uri: &str, position: Position, document_manager: &DocumentManager) -> (r: String)
    requires
        document_manager.wf(),
    ensures
        r@ == spec_before_cursor(*document_manager, uri@, position),
{
    match crate::word::doc_line(uri, position.line, document_manager) {
        Some(line) => {
            let cs = chars_vec(line.as_str());
            let k = if (position.character as usize) <= cs.len() {
                position.character as usize
            } else {
                cs.len()
            };
            let r = string_from_range(cs.as_slice(), 0, k);
            assert(cs@.subrange(0, k as int) =~= cs@.take(k as int));
            r
        },
        None => String::new(),
    }
}

/// The items a context calls for.
pub open spec fn spec_context_items(ast: Program, context: ContextView) -> Seq<CompletionView> {
    match context {
        ContextView::VariableDeclaration => spec_type_items(),
        ContextView::FunctionCall => function_items(ast.statements@),
        ContextView::StructFieldAccess { struct_name } => field_items(ast.statements@, struct_name),
        ContextView::MethodAccess => method_items(ast.statements@),
        ContextView::ImportStatement => spec_import_items(),
        ContextView::PackageDeclaration => spec_package_items(),
        ContextView::VariableReference => scope_items(ast.statements@),
        ContextView::General => spec_keyword_items() + spec_type_items() + scope_items(ast.statements@),
    }
}

/// Get the completions the context before the cursor calls for.
pub fn get_context_completions(ast: &Program, uri: &str, position: Position, document_manager: &DocumentManager) -> (r:
    Vec<CompletionItem>)
    requires
        document_manager.wf(),
    ensures
        items_view(r@) == spec_context_items(
            *ast,
            spec_analyze_context(spec_before_cursor(*document_manager, uri@, position)),
        ),
{
    let before_cursor = text_before_cursor(uri, position, document_manager);
    let context = analyze_completion_context(before_cursor.as_str(), uri, position, document_manager);
    match context {
        CompletionContext::VariableDeclaration => get_type_completions(),
        CompletionContext::FunctionCall => get_function_completions(ast),
        CompletionContext::StructFieldAccess { struct_name } => get_field_completions(ast, struct_name.as_str()),
        CompletionContext::MethodAccess => get_method_completions(ast),
        CompletionContext::ImportStatement => get_import_completions(),
        CompletionContext::PackageDeclaration => get_package_completions(),
        CompletionContext::VariableReference => get_scope_completions(ast, uri, position, document_manager),
        CompletionContext::General => {
            let mut items = get_keyword_completions();
            append_items(&mut items, get_type_completions());
            append_items(&mut items, get_scope_completions(ast, uri, position, document_manager));
            items
        },
    }
}

/// Kinds kept after a dot.
pub open spec fn member_kind(k: Option<CompletionItemKind>) -> bool {
    k == Some(CompletionItemKind::Method) || k == Some(CompletionItemKind::Field) || k == Some(
        CompletionItemKind::Property,
    )
}

/// Kinds kept after a colon.
pub open spec fn type_kind(k: Option<CompletionItemKind>) -> bool {
    k == Some(CompletionItemKind::TypeParameter) || k == Some(CompletionItemKind::Class) || k == Some(
        CompletionItemKind::Interface,
    )
}

/// The items, in order, whose kind `keep_members` or `keep_types` asks for.
pub open spec fn keep_kinds(items: Seq<CompletionView>, members: bool) -> Seq<CompletionView>
    decreases items.len(),
{
    if items.len() == 0 {
        Seq::empty()
    } else {
        keep_kinds(items.drop_last(), members) + if (members && member_kind(items.last().kind)) || (!members
            && type_kind(items.last().kind)) {
            seq![items.last()]
        } else {
            Seq::empty()
        }
    }
}

/// Filter the items by the text before the cursor: after a dot only
/// members, after a colon only types, otherwise all of them.
pub open spec fn spec_filter(items: Seq<CompletionView>, before: Seq<char>) -> Seq<CompletionView> {
    if ends_with_char(before, '.') {
        keep_kinds(items, true)
    } else if ends_with_char(before, ':') {
        keep_kinds(items, false)
    } else {
        items
    }
}

fn keep_items(items: Vec<CompletionItem>, members: bool) -> (r: Vec<CompletionItem>)
    ensures
        items_view(r@) == keep_kinds(items_view(items@), members),
{
    let ghost all = items_view(items@);
    let mut out: Vec<CompletionItem> = Vec::new();
    let mut rest = items;
    let ghost mut k: int = 0;
    assert(all.take(0) =~= Seq::<CompletionView>::empty());
    assert(all.skip(0) =~= all);
    while rest.len() > 0
        invariant
            0 <= k <= all.len(),
            items_view(out@) == keep_kinds(all.take(k), members),
            items_view(rest@) == all.skip(k),
        decreases rest.len(),
    {
        let ghost old_rest = rest@;
        let item = rest.remove(0);
        proof {
            assert(items_view(old_rest)[0] == item@);
            assert(all.skip(k).len() > 0);
            assert(all.skip(k)[0] == all[k]);
            assert(rest@ =~= old_rest.skip(1));
            assert(items_view(rest@) =~= items_view(old_rest).skip(1));
            assert(all.take(k + 1).drop_last() =~= all.take(k));
            assert(all.take(k + 1).last() == item@);
        }
        let keep = match item.kind {
            Some(CompletionItemKind::Method) | Some(CompletionItemKind::Field) | Some(CompletionItemKind::Property) => members,
            Some(CompletionItemKind::TypeParameter) | Some(CompletionItemKind::Class) | Some(
                CompletionItemKind::Interface,
            ) => !members,
            _ => false,
        };
        let ghost iv = item@;
        if keep {
            push_item(&mut out, item);
        } else {
            assert(items_view(out@) =~= items_view(out@) + Seq::<CompletionView>::empty());
        }
        proof {
            k = k + 1;
        }
    }
    assert(all.take(k) =~= all);
    out
}

/// Filter completions by the text before the cursor.
pub fn filter_completions_by_context(
    items: Vec<CompletionItem>,
    uri: &str,
    position: Position,
    document_manager: &DocumentManager,
) -> (r: Vec<CompletionItem>)
    requires
        document_manager.wf(),
    ensures
        items_view(r@) == spec_filter(items_view(items@), spec_before_cursor(*document_manager, uri@, position)),
{
    let before_cursor = text_before_cursor(uri, position, document_manager);
    let cs = chars_vec(before_cursor.as_str());
    if cs.len() > 0 && cs[cs.len() - 1] == '.' {
        keep_items(items, true)
    } else if cs.len() > 0 && cs[cs.len() - 1] == ':' {
        keep_items(items, false)
    } else {
        items
    }
}

/// The completion items at `position`: keywords, types and, when the
/// document has a syntax tree, what the context calls for, filtered by the
/// text before the cursor.
pub open spec fn spec_completion_items(dm: DocumentManager, uri: Seq<char>, position: Position) -> Seq<CompletionView> {
    let base = spec_keyword_items() + spec_type_items();
    let all = if dm.view().contains_key(uri) {
        match dm.view()[uri].ast {
            Some(a) => base + spec_context_items(*a, spec_analyze_context(spec_before_cursor(dm, uri, position))),
            None => base,
        }
    } else {
        base
    };
    spec_filter(all, spec_before_cursor(dm, uri, position))
}

/// Compute the completion items at `position` in the document at `uri`.
pub fn completion_items(uri: &str, position: Position, document_manager: &DocumentManager) -> (r: Vec<CompletionItem>)
    requires
        document_manager.wf(),
    ensures
        items_view(r@) == spec_completion_items(*document_manager, uri@, position),
{
    let mut items = get_keyword_completions();
    append_items(&mut items, get_type_completions());
    match document_manager.get_document_ast(uri) {
        Some(ast) => {
            append_items(&mut items, get_context_completions(&ast, uri, position, document_manager));
        },
        None => {},
    }
    filter_completions_by_context(items, uri, position, document_manager)
}

/// The kinds one filter keeps.
pub open spec fn kept_kind(k: Option<CompletionItemKind>, members: bool) -> bool {
    (members && member_kind(k)) || (!members && type_kind(k))
}

proof fn lemma_keep_kinds(items: Seq<CompletionView>, members: bool)
    ensures
        forall|k: int|
            0 <= k < keep_kinds(items, members).len() ==> kept_kind(
                (#[trigger] keep_kinds(items, members)[k]).kind,
                members,
            ) && items.contains(keep_kinds(items, members)[k]),
        keep_kinds(keep_kinds(items, members), members) == keep_kinds(items, members),
    decreases items.len(),
{
    if items.len() > 0 {
        let init = items.drop_last();
        let x = items.last();
        lemma_keep_kinds(init, members);
        let before = keep_kinds(init, members);
        let tail = if kept_kind(x.kind, members) {
            seq![x]
        } else {
            Seq::<CompletionView>::empty()
        };
        let out = before + tail;
        assert(out == keep_kinds(items, members));
        assert forall|k: int| 0 <= k < out.len() implies kept_kind((#[trigger] out[k]).kind, members)
            && items.contains(out[k]) by {
            if k < before.len() {
                assert(out[k] == before[k]);
                let j = choose|j: int| 0 <= j < init.len() && init[j] == before[k];
                assert(items[j] == init[j]);
            } else {
                assert(out[k] == x);
                assert(items[items.len() - 1] == x);
            }
        }
        if tail.len() == 0 {
            assert(out =~= before);
        } else {
            assert(out.last() == x);
            assert(out.drop_last() =~= before);
        }
    }
}

/// Filtering by the text before the cursor keeps only items it was given,
/// keeps only members after a dot and only types after a colon, and
/// filtering its result again changes nothing.
pub proof fn law_filter_keeps_allowed_items(items: Seq<CompletionView>, before: Seq<char>)
    ensures
        forall|k: int|
            0 <= k < spec_filter(items, before).len() ==> items.contains(#[trigger] spec_filter(items, before)[k]),
        ends_with_char(before, '.') ==> forall|k: int|
            0 <= k < spec_filter(items, before).len() ==> member_kind(
                (#[trigger] spec_filter(items, before)[k]).kind,
            ),
        !ends_with_char(before, '.') && ends_with_char(before, ':') ==> forall|k: int|
            0 <= k < spec_filter(items, before).len() ==> type_kind(
                (#[trigger] spec_filter(items, before)[k]).kind,
            ),
        spec_filter(spec_filter(items, before), before) == spec_filter(items, before),
{
    lemma_keep_kinds(items, true);
    lemma_keep_kinds(items, false);
    let out = spec_filter(items, before);
    if !ends_with_char(before, '.') && !ends_with_char(before, ':') {
        assert forall|k: int| 0 <= k < out.len() implies items.contains(#[trigger] out[k]) by {
            assert(items[k] == out[k]);
        }
    }
}

/// White space typed after the text does not change what is completed.
pub proof fn law_context_ignores_trailing_space(before: Seq<char>, c: char)
    requires
        spec_char_is_whitespace(c),
    ensures
        spec_analyze_context(before.push(c)) == spec_analyze_context(before),
{
    assert(before.push(c).drop_last() =~= before);
}

proof fn lemma_trailing_name(p: Seq<char>, n: Seq<char>)
    requires
        p.len() == 0 || name_stop(p.last()),
        forall|i: int| 0 <= i < n.len() ==> !name_stop(#[trigger] n[i]),
    ensures
        trailing_name(p + n) == n,
    decreases n.len(),
{
    if n.len() == 0 {
        assert(p + n =~= p);
    } else {
        lemma_trailing_name(p, n.drop_last());
        assert((p + n).drop_last() =~= p + n.drop_last());
        assert((p + n).last() == n.last());
        assert(n.drop_last().push(n.last()) =~= n);
    }
}

/// A dot typed right after a name asks for that struct's fields: for a
/// name that holds no white space, `=`, bracket or dot, and follows the
/// start of the text or such a stop character, the context is the field
/// access of that name.
pub proof fn law_dot_after_name_completes_its_fields(p: Seq<char>, n: Seq<char>)
    requires
        p.len() == 0 || name_stop(p.last()),
        n.len() > 0,
        forall|i: int| 0 <= i < n.len() ==> !name_stop(#[trigger] n[i]),
    ensures
        spec_analyze_context(p + n + seq!['.']) == (ContextView::StructFieldAccess { struct_name: n }),
{
    let t = p + n + seq!['.'];
    assert(!name_stop(n.last()));
    assert(t.last() == '.');
    assert(!spec_char_is_whitespace('.'));
    assert(trim_end_space(t) == t);
    assert(t.drop_last() =~= p + n);
    assert((p + n).last() == n.last());
    assert(trim_end_char(p + n, '.') == p + n);
    lemma_trailing_name(p, n);
}

proof fn lemma_function_items(ns: Seq<AstNode>)
    ensures
        forall|j: int| 0 <= j < function_items(ns).len() ==> (#[trigger] function_items(ns)[j]).kind == Some(
            CompletionItemKind::Function,
        ),
        forall|i: int|
            0 <= i < ns.len() && (#[trigger] ns[i] is FunctionDecl) ==> function_items(ns).contains(
                function_item(ns[i]->FunctionDecl_0),
            ),
    decreases ns.len(),
{
    if ns.len() > 0 {
        let pre = ns.drop_last();
        lemma_function_items(pre);
        let a = function_items(pre);
        let b = match ns.last() {
            AstNode::FunctionDecl(f) => seq![function_item(f)],
            _ => Seq::<CompletionView>::empty(),
        };
        assert(function_items(ns) == a + b);
        assert forall|j: int| 0 <= j < (a + b).len() implies (#[trigger] (a + b)[j]).kind == Some(
            CompletionItemKind::Function,
        ) by {
            if j >= a.len() {
                assert((a + b)[j] == b[j - a.len()]);
            }
        }
        assert forall|i: int| 0 <= i < ns.len() && (#[trigger] ns[i] is FunctionDecl) implies (a + b).contains(
            function_item(ns[i]->FunctionDecl_0),
        ) by {
            if i < ns.len() - 1 {
                assert(pre[i] == ns[i]);
                let k = choose|k: int| 0 <= k < a.len() && a[k] == function_item(pre[i]->FunctionDecl_0);
                assert((a + b)[k] == a[k]);
            } else {
                assert((a + b)[a.len() as int] == b[0]);
            }
        }
    }
}

/// The completions after `(` are exactly functions: every top-level
/// function of the program is offered under its name, and every item
/// offered is a function.
pub proof fn law_function_completions(ns: Seq<AstNode>)
    ensures
        forall|j: int| 0 <= j < function_items(ns).len() ==> (#[trigger] function_items(ns)[j]).kind == Some(
            CompletionItemKind::Function,
        ),
        forall|i: int|
            0 <= i < ns.len() && (#[trigger] ns[i] is FunctionDecl) ==> exists|j: int|
                0 <= j < function_items(ns).len() && #[trigger] function_items(ns)[j].label
                    == ns[i]->FunctionDecl_0.name@,
{
    lemma_function_items(ns);
    assert forall|i: int| 0 <= i < ns.len() && (#[trigger] ns[i] is FunctionDecl) implies exists|j: int|
        0 <= j < function_items(ns).len() && #[trigger] function_items(ns)[j].label == ns[i]->FunctionDecl_0.name@ by {
        let x = function_item(ns[i]->FunctionDecl_0);
        let k = choose|k: int| 0 <= k < function_items(ns).len() && function_items(ns)[k] == x;
        assert(function_items(ns)[k].label == ns[i]->FunctionDecl_0.name@);
    }
}

/// The name and completion kind a top-level statement contributes to the
/// scope: variables, structs and enums.
pub open spec fn scope_entry(n: AstNode) -> Option<(Seq<char>, CompletionItemKind)> {
    match n {
        AstNode::VariableDecl(v) => Some((v.name@, CompletionItemKind::Variable)),
        AstNode::StructDecl(sd) => Some((sd.name@, CompletionItemKind::Struct)),
        AstNode::EnumDecl(e) => Some((e.name@, CompletionItemKind::Enum)),
        _ => None,
    }
}

/// The names in scope are offered with their kinds: every top-level
/// variable, struct and enum is offered under its name as a variable,
/// struct or enum item, and every item offered is one of them.
pub proof fn law_scope_completions(ns: Seq<AstNode>)
    ensures
        forall|i: int|
            0 <= i < ns.len() && (#[trigger] scope_entry(ns[i])) is Some ==> exists|j: int|
                0 <= j < scope_items(ns).len() && (#[trigger] scope_items(ns)[j]).label == (scope_entry(ns[i])->0).0
                    && scope_items(ns)[j].kind == Some((scope_entry(ns[i])->0).1),
        forall|j: int|
            0 <= j < scope_items(ns).len() ==> exists|i: int|
                0 <= i < ns.len() && (#[trigger] scope_entry(ns[i])) == Some(
                    ((#[trigger] scope_items(ns)[j]).label, scope_items(ns)[j].kind->0),
                ),
    decreases ns.len(),
{
    if ns.len() > 0 {
        let pre = ns.drop_last();
        law_scope_completions(pre);
        let a = scope_items(pre);
        let last = ns.last();
        let b = scope_items(ns).subrange(a.len() as int, scope_items(ns).len() as int);
        assert(scope_items(ns) =~= a + b);
        assert(b.len() == (if scope_entry(last) is Some { 1int } else { 0int }));
        if scope_entry(last) is Some {
            assert(b[0].label == (scope_entry(last)->0).0 && b[0].kind == Some((scope_entry(last)->0).1));
        }
        assert forall|i: int|
            0 <= i < ns.len() && (#[trigger] scope_entry(ns[i])) is Some implies exists|j: int|
                0 <= j < scope_items(ns).len() && (#[trigger] scope_items(ns)[j]).label == (scope_entry(ns[i])->0).0
                    && scope_items(ns)[j].kind == Some((scope_entry(ns[i])->0).1) by {
            if i < ns.len() - 1 {
                assert(pre[i] == ns[i]);
                let j = choose|j: int|
                    0 <= j < a.len() && (#[trigger] a[j]).label == (scope_entry(pre[i])->0).0 && a[j].kind == Some(
                        (scope_entry(pre[i])->0).1,
                    );
                assert(scope_items(ns)[j] == a[j]);
            } else {
                assert(scope_items(ns)[a.len() as int] == b[0]);
            }
        }
        assert forall|j: int| 0 <= j < scope_items(ns).len() implies exists|i: int|
            0 <= i < ns.len() && (#[trigger] scope_entry(ns[i])) == Some(
                ((#[trigger] scope_items(ns)[j]).label, scope_items(ns)[j].kind->0),
            ) by {
            if j < a.len() {
                assert(scope_items(ns)[j] == a[j]);
                let i = choose|i: int|
                    0 <= i < pre.len() && (#[trigger] scope_entry(pre[i])) == Some(((#[trigger] a[j]).label, a[j].kind->0));
                assert(pre[i] == ns[i]);
            } else {
                assert(scope_items(ns)[j] == b[0]);
                assert(ns[ns.len() - 1] == last);
            }
        }
    }
}

} // verus!
