use mtproto_satori::element::{dump, strip, AttrValue, Element};
use mtproto_satori::entities::{escape, unescape};
use mtproto_satori::markup::{parse, parse_would_fail};

#[test]
fn escape_inline_and_block() {
    assert_eq!(escape("a<b>&\"c\"", false), "a&lt;b&gt;&amp;\"c\"");
    assert_eq!(escape("a<b>&\"c\"", true), "a&lt;b&gt;&amp;&quot;c&quot;");
}

#[test]
fn unescape_entities() {
    assert_eq!(unescape("&lt;b&gt; &amp; &quot;"), "<b> & \"");
    assert_eq!(unescape("&#65;&#x42;&#38;&#x26;"), "AB&&");
    assert_eq!(unescape("&#1114112;"), "\u{fffd}");
    assert_eq!(unescape("&#99999999999;"), "\u{fffd}");
    assert_eq!(unescape("&#\u{0661}\u{0662};"), "\u{fffd}");
    assert_eq!(unescape("&#x;&#;"), "&#x;&#;");
}

#[test]
fn unescape_reads_back_escape() {
    for s in ["", "plain", "&lt;", "a<b>&\"'", "&#60;&amp;", "&&&;;;<<>>\"\""] {
        assert_eq!(unescape(&escape(s, true)), s);
        assert_eq!(unescape(&escape(s, false)), s);
    }
}

#[test]
fn parse_and_dump() {
    let src = "hello <b>world</b><img src=\"a&amp;b\"/><at id=\"1\" no-x/>";
    let es = parse(src).unwrap();
    assert_eq!(es.len(), 4);
    assert_eq!(es[0].get_text(), Some("hello "));
    assert_eq!(es[3].tag, "at");
    assert_eq!(es[3].get_attr_bool("x"), Some(false));
    assert_eq!(es[1].tag, "b");
    assert_eq!(es[1].children[0].get_text(), Some("world"));
    assert_eq!(es[2].tag, "img");
    assert_eq!(es[2].get_attr_str("src"), Some("a&b"));
    assert_eq!(strip(&es), "hello world");
    assert_eq!(dump(&es[0..2]), "hello <b>world</b>");
}

#[test]
fn parse_comment_and_trim() {
    let es = parse("\n  <!-- c --> x \n ").unwrap();
    assert_eq!(es.len(), 1);
    assert_eq!(es[0].get_text(), Some(" x"));
}

#[test]
fn parse_attributes() {
    let es = parse("<x a='1' b c=\"2\" no-d a=\"3\">t</x>").unwrap();
    let e = &es[0];
    assert_eq!(e.get_attr_str("a"), Some("3"));
    assert_eq!(e.get_attr_bool("b"), Some(true));
    assert_eq!(e.get_attr_bool("d"), Some(false));
    assert_eq!(e.get_attr_str("c"), Some("2"));
    assert_eq!(e.to_markup(), "<x a=\"3\" b c=\"2\" no-d>t</x>");
}

#[test]
fn parse_root_close() {
    assert!(parse("a</>").is_none());
    assert!(parse_would_fail("</>a"));
    assert!(!parse_would_fail("a</>"));
}

#[test]
fn text_element() {
    let e = Element::text("a<b".to_string());
    assert_eq!(e.to_markup(), "a&lt;b");
    assert_eq!(e.strip(), "a<b");
    assert!(matches!(e.attrs[0].1, AttrValue::Str(_)));
}

fn attr_text(v: &AttrValue) -> String {
    match v {
        AttrValue::Bool(b) => format!("bool:{}", b),
        AttrValue::Str(s) => format!("str:{}", s),
    }
}

fn shape(es: &[Element]) -> String {
    let mut out = String::new();
    for e in es {
        out.push('(');
        out.push_str(&e.tag);
        for (k, v) in &e.attrs {
            out.push_str(&format!(" {}={}", k, attr_text(v)));
        }
        out.push_str(&shape(&e.children));
        out.push(')');
    }
    out
}

#[test]
fn dump_then_parse_gives_the_elements_back() {
    let text = |s: &str| Element::text(s.to_string());
    let es = vec![
        Element {
            tag: "b".to_string(),
            attrs: vec![
                ("id".to_string(), AttrValue::Str("a\"<&>".to_string())),
                ("on".to_string(), AttrValue::Bool(true)),
                ("off".to_string(), AttrValue::Bool(false)),
            ],
            children: vec![
                text("x < y & z"),
                Element { tag: "code-block".to_string(), attrs: vec![], children: vec![text("inner")] },
                text("tail"),
            ],
        },
        Element {
            tag: "img".to_string(),
            attrs: vec![("src".to_string(), AttrValue::Str("u/v?w=1".to_string()))],
            children: vec![],
        },
    ];
    let markup = dump(&es);
    assert!(!parse_would_fail(&markup));
    let back = parse(&markup).unwrap();
    assert_eq!(shape(&back), shape(&es));
    assert_eq!(dump(&back), markup);
}

#[test]
fn strip_of_concatenation() {
    let a = parse("<b>he</b>llo").unwrap();
    let b = parse("<p> <i>wor</i>ld</p>").unwrap();
    let both: Vec<Element> = a.iter().chain(b.iter()).map(|e| e.duplicate()).collect();
    assert_eq!(strip(&both), format!("{}{}", strip(&a), strip(&b)));
    assert_eq!(strip(&[a[0].duplicate()]), a[0].strip());
    assert_eq!(strip(&[]), "");
    assert_eq!(strip(&[Element::text("plain".to_string())]), "plain");
}
