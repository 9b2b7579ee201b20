//! The icon and colour the file tree shows for a file name.
use vstd::prelude::*;

use crate::editor::highlight::{after_last, after_last_exec, is_text};
use crate::text::{chars_to_lowercase, lowercase, str_chars};

verus! {

/// The kinds of file icon.
#[derive(Clone, Copy, Debug, PartialEq, Eq, Structural)]
pub enum FileIcon {
    Rust,
    Python,
    JavaScript,
    TypeScript,
    Jsx,
    Tsx,
    Braces,
    Code,
    Markdown,
    Html,
    Css,
    C,
    Cpp,
    Sql,
    Svg,
    Terminal,
    Text,
    Lock,
    CSharp,
    File,
}

/// The icon and RGB colour for a lower-cased extension.
pub open spec fn icon_for_extension(e: Seq<char>) -> (FileIcon, (u8, u8, u8)) {
    if e == "rs"@ {
        (FileIcon::Rust, (222, 99, 52))
    } else if e == "py"@ {
        (FileIcon::Python, (53, 114, 165))
    } else if e == "js"@ || e == "mjs"@ || e == "cjs"@ {
        (FileIcon::JavaScript, (240, 219, 79))
    } else if e == "ts"@ {
        (FileIcon::TypeScript, (49, 120, 198))
    } else if e == "jsx"@ {
        (FileIcon::Jsx, (97, 218, 251))
    } else if e == "tsx"@ {
        (FileIcon::Tsx, (97, 218, 251))
    } else if e == "json"@ || e == "jsonc"@ {
        (FileIcon::Braces, (255, 196, 88))
    } else if e == "toml"@ {
        (FileIcon::Code, (156, 220, 254))
    } else if e == "yaml"@ || e == "yml"@ {
        (FileIcon::Code, (206, 145, 120))
    } else if e == "md"@ || e == "mdx"@ {
        (FileIcon::Markdown, (100, 200, 255))
    } else if e == "html"@ || e == "htm"@ {
        (FileIcon::Html, (228, 79, 38))
    } else if e == "css"@ {
        (FileIcon::Css, (86, 156, 214))
    } else if e == "scss"@ || e == "sass"@ || e == "less"@ {
        (FileIcon::Css, (205, 103, 153))
    } else if e == "c"@ || e == "h"@ {
        (FileIcon::C, (85, 144, 196))
    } else if e == "cpp"@ || e == "cc"@ || e == "cxx"@ || e == "hpp"@ {
        (FileIcon::Cpp, (85, 144, 196))
    } else if e == "sql"@ {
        (FileIcon::Sql, (218, 160, 17))
    } else if e == "svg"@ {
        (FileIcon::Svg, (255, 160, 40))
    } else if e == "xml"@ {
        (FileIcon::Code, (228, 79, 38))
    } else if e == "sh"@ || e == "bash"@ || e == "zsh"@ || e == "fish"@ {
        (FileIcon::Terminal, (35, 209, 139))
    } else if e == "txt"@ || e == "log"@ {
        (FileIcon::Text, (160, 160, 160))
    } else if e == "lock"@ {
        (FileIcon::Lock, (160, 160, 160))
    } else if e == "go"@ {
        (FileIcon::Code, (0, 173, 216))
    } else if e == "java"@ {
        (FileIcon::Code, (176, 114, 25))
    } else if e == "kt"@ || e == "kts"@ {
        (FileIcon::Code, (169, 121, 227))
    } else if e == "swift"@ {
        (FileIcon::Code, (240, 81, 56))
    } else if e == "rb"@ {
        (FileIcon::Code, (204, 52, 45))
    } else if e == "php"@ {
        (FileIcon::Code, (119, 123, 179))
    } else if e == "lua"@ {
        (FileIcon::Code, (80, 80, 228))
    } else if e == "cs"@ {
        (FileIcon::CSharp, (104, 33, 122))
    } else if e == "dart"@ {
        (FileIcon::Code, (84, 182, 217))
    } else if e == "zig"@ {
        (FileIcon::Code, (247, 175, 48))
    } else if e == "ex"@ || e == "exs"@ {
        (FileIcon::Code, (102, 51, 153))
    } else {
        (FileIcon::File, (160, 160, 160))
    }
}

/// The icon and colour for a file name, by the lower-cased text after its
/// last dot (the whole name when it has none).
pub fn file_icon(name: &str) -> (r: (FileIcon, (u8, u8, u8)))
    ensures
        r == icon_for_extension(lowercase(after_last(name@, '.'))),
{
    let e = chars_to_lowercase(&after_last_exec(&str_chars(name), '.'));
    if is_text(&e, "rs") {
        (FileIcon::Rust, (222, 99, 52))
    } else if is_text(&e, "py") {
        (FileIcon::Python, (53, 114, 165))
    } else if is_text(&e, "js") || is_text(&e, "mjs") || is_text(&e, "cjs") {
        (FileIcon::JavaScript, (240, 219, 79))
    } else if is_text(&e, "ts") {
        (FileIcon::TypeScript, (49, 120, 198))
    } else if is_text(&e, "jsx") {
        (FileIcon::Jsx, (97, 218, 251))
    } else if is_text(&e, "tsx") {
        (FileIcon::Tsx, (97, 218, 251))
    } else if is_text(&e, "json") || is_text(&e, "jsonc") {
        (FileIcon::Braces, (255, 196, 88))
    } else if is_text(&e, "toml") {
        (FileIcon::Code, (156, 220, 254))
    } else if is_text(&e, "yaml") || is_text(&e, "yml") {
        (FileIcon::Code, (206, 145, 120))
    } else if is_text(&e, "md") || is_text(&e, "mdx") {
        (FileIcon::Markdown, (100, 200, 255))
    } else if is_text(&e, "html") || is_text(&e, "htm") {
        (FileIcon::Html, (228, 79, 38))
    } else if is_text(&e, "css") {
        (FileIcon::Css, (86, 156, 214))
    } else if is_text(&e, "scss") || is_text(&e, "sass") || is_text(&e, "less") {
        (FileIcon::Css, (205, 103, 153))
    } else if is_text(&e, "c") || is_text(&e, "h") {
        (FileIcon::C, (85, 144, 196))
    } else if is_text(&e, "cpp") || is_text(&e, "cc") || is_text(&e, "cxx") || is_text(&e, "hpp") {
        (FileIcon::Cpp, (85, 144, 196))
    } else if is_text(&e, "sql") {
        (FileIcon::Sql, (218, 160, 17))
    } else if is_text(&e, "svg") {
        (FileIcon::Svg, (255, 160, 40))
    } else if is_text(&e, "xml") {
        (FileIcon::Code, (228, 79, 38))
    } else if is_text(&e, "sh") || is_text(&e, "bash") || is_text(&e, "zsh") || is_text(&e, "fish") {
        (FileIcon::Terminal, (35, 209, 139))
    } else if is_text(&e, "txt") || is_text(&e, "log") {
        (FileIcon::Text, (160, 160, 160))
    } else if is_text(&e, "lock") {
        (FileIcon::Lock, (160, 160, 160))
    } else if is_text(&e, "go") {
        (FileIcon::Code, (0, 173, 216))
    } else if is_text(&e, "java") {
        (FileIcon::Code, (176, 114, 25))
    } else if is_text(&e, "kt") || is_text(&e, "kts") {
        (FileIcon::Code, (169, 121, 227))
    } else if is_text(&e, "swift") {
        (FileIcon::Code, (240, 81, 56))
    } else if is_text(&e, "rb") {
        (FileIcon::Code, (204, 52, 45))
    } else if is_text(&e, "php") {
        (FileIcon::Code, (119, 123, 179))
    } else if is_text(&e, "lua") {
        (FileIcon::Code, (80, 80, 228))
    } else if is_text(&e, "cs") {
        (FileIcon::CSharp, (104, 33, 122))
    } else if is_text(&e, "dart") {
        (FileIcon::Code, (84, 182, 217))
    } else if is_text(&e, "zig") {
        (FileIcon::Code, (247, 175, 48))
    } else if is_text(&e, "ex") || is_text(&e, "exs") {
        (FileIcon::Code, (102, 51, 153))
    } else {
        (FileIcon::File, (160, 160, 160))
    }
}

} // verus!
