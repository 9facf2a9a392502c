use regex::Regex;
use sysz::types::checker::{is_list_like, simplify_nonlist_type, simplify_type};

/// The same rules written with a regular expression, to compare with.
fn simplify_by_regex(type_str: &str) -> String {
    if !is_list_like(type_str) {
        return type_str.rsplit("::").next().unwrap_or(type_str).to_owned();
    }
    let qualifier = Regex::new(r"([a-zA-Z_][a-zA-Z0-9_]*::)+").unwrap();
    let mut result = String::new();
    let mut token = String::new();
    let mut depth: i32 = 0;
    let mut qualified = false;
    let mut last = ' ';
    let mut close = |result: &mut String, token: &str, qualified: bool| {
        if !result.is_empty() {
            result.push_str(", ");
        }
        if qualified {
            result.push_str(&qualifier.replace_all(token, ""));
        } else {
            result.push_str(token);
        }
    };
    for c in type_str.chars() {
        match c {
            '<' => {
                depth += 1;
                token.push(c);
            }
            '>' => {
                depth = depth.saturating_sub(1);
                token.push(c);
            }
            ',' if depth == 0 => {
                close(&mut result, &token, qualified);
                token.clear();
                qualified = false;
            }
            _ => {
                if last == ':' && c == ':' {
                    qualified = true;
                }
                token.push(c);
                last = c;
            }
        }
    }
    close(&mut result, &token, qualified);
    result
}

#[test]
fn checker_nonlist_keeps_what_follows_the_last_separator() {
    assert_eq!(simplify_nonlist_type("std::string::String"), "String");
    assert_eq!(simplify_nonlist_type("String"), "String");
    assert_eq!(simplify_nonlist_type("a::"), "");
    assert_eq!(simplify_nonlist_type("::a"), "a");
    assert_eq!(simplify_nonlist_type("a:::b"), "b");
    assert_eq!(simplify_nonlist_type("a:b"), "a:b");
    assert_eq!(simplify_nonlist_type(""), "");
    assert_eq!(simplify_nonlist_type("::"), "");
    assert_eq!(simplify_nonlist_type(":"), ":");
}

#[test]
fn checker_nonlist_agrees_with_rsplit() {
    for text in [
        "", ":", "::", ":::", "::::", "a", "a::b", "a::b::c", "a:::b", "a::::b", "core::é::ü",
        "x::", "::x", "a:b:c", " a :: b ",
    ] {
        let expected = text.rsplit("::").next().unwrap_or(text);
        assert_eq!(simplify_nonlist_type(text), expected, "for {:?}", text);
    }
}

#[test]
fn checker_is_list_like_sees_angles_and_brackets() {
    assert!(is_list_like("Vec<i32>"));
    assert!(is_list_like("a>b"));
    assert!(is_list_like("<"));
    assert!(is_list_like("[u8]"));
    assert!(is_list_like("  [u8; 4]\n"));
    assert!(is_list_like("\u{3000}[u8]\u{a0}"));
    assert!(!is_list_like("[u8"));
    assert!(!is_list_like("u8]"));
    assert!(!is_list_like("x[u8]"));
    assert!(!is_list_like("i32"));
    assert!(!is_list_like(""));
    assert!(!is_list_like("   "));
    assert!(!is_list_like("]["));
    assert!(!is_list_like("[") && !is_list_like("]"));
}

#[test]
fn checker_simplify_type_of_plain_names() {
    assert_eq!(simplify_type("std::string::String"), "String");
    assert_eq!(simplify_type("i32"), "i32");
    assert_eq!(simplify_type("(a::B, c::D)"), "D)");
}

#[test]
fn checker_simplify_type_keeps_generics() {
    assert_eq!(simplify_type("alloc::vec::Vec<alloc::string::String>"), "Vec<String>");
    assert_eq!(
        simplify_type(
            "std::collections::HashMap<alloc::string::String, core::option::Option<i32>>"
        ),
        "HashMap<String, Option<i32>>"
    );
    assert_eq!(simplify_type("[alloc::string::String]"), "[String]");
    assert_eq!(simplify_type("Vec<i32>"), "Vec<i32>");
}

#[test]
fn checker_simplify_type_cuts_at_commas_outside_brackets() {
    assert_eq!(simplify_type("[a::B, c::D]"), "[B,  D]");
    assert_eq!(simplify_type("[a,b]"), "[a, b]");
    assert_eq!(simplify_type("[,]"), "[, ]");
    assert_eq!(simplify_type(",<>"), "<>");
    assert_eq!(simplify_type("a>,b"), "a>,b");
}

#[test]
fn checker_simplify_type_strips_a_token_only_where_it_holds_a_separator() {
    assert_eq!(simplify_type("[x::Y, z]"), "[Y,  z]");
    assert_eq!(simplify_type("[9ab::c]"), "[9c]");
    assert_eq!(simplify_type("[a:b::c]"), "[a:c]");
    assert_eq!(simplify_type("[::a::b]"), "[::b]");
    assert_eq!(simplify_type("[a:::b]"), "[:b]");
    assert_eq!(simplify_type("[a::b::]"), "[]");
}

#[test]
fn checker_simplify_type_agrees_with_the_regular_expression() {
    for text in [
        "alloc::vec::Vec<alloc::string::String>",
        "std::collections::HashMap<alloc::string::String, core::option::Option<i32>>",
        "[a::B, c::D]",
        "[9ab::c]",
        "[a:b::c]",
        "[::a::b]",
        "[a:::b]",
        "[a::::b]",
        "[a::b::]",
        "[_x1::Y_2::z]",
        "[é::a::b]",
        "[aé::b::c]",
        "[a ::b:: c::d]",
        "[a::9b::c]",
        "[a::b, c:, :d::e]",
        "[a:<:b::c>]",
        "<a::b>,c::d,e<f::g,h::i>,j",
        ">a::b,c::d",
        "a<b<c::d>>, e::f<g::h>",
        "[,,a::b,,]",
        "[::]",
        "[:]",
        "[a::]",
        "[A1_::_b2::C__::d]",
        "[a::b::c::d::e::f]",
        "[a::B<c::D>::e]",
        "&[core::option::Option<&str>]",
        "<>",
        "[]",
    ] {
        assert_eq!(simplify_type(text), simplify_by_regex(text), "for {:?}", text);
    }
}

#[test]
fn checker_simplify_type_agrees_with_the_regular_expression_on_many_texts() {
    let alphabet: Vec<char> = "ab9_: :<>,[]é".chars().collect();
    let mut state: u64 = 0x2545_F491_4F6C_DD1D;
    for round in 0..20_000 {
        let mut text = String::new();
        let length = 1 + round % 14;
        for _ in 0..length {
            state ^= state << 13;
            state ^= state >> 7;
            state ^= state << 17;
            text.push(alphabet[(state % alphabet.len() as u64) as usize]);
        }
        let bracketed = format!("[{}]", text);
        assert_eq!(simplify_type(&text), simplify_by_regex(&text), "for {:?}", text);
        assert_eq!(simplify_type(&bracketed), simplify_by_regex(&bracketed), "for {:?}", bracketed);
    }
}
