use composites::text::Text;
use composites::texts::JoinedText;
use composites::texts::PlainText;
use composites::texts::RepeatedText;
use composites::texts::Texts;

#[test]
fn test_text_repeated2() {
    let t1 = PlainText::from("Hi");
    let t2 = PlainText::from("[+]");
    let t3 = RepeatedText::with_parts(t2.clone_box(), 3);
    let t4 = RepeatedText::with_parts(t3.clone_box(), 5);
    assert_eq!(t1.value(), "Hi");
    assert_eq!(t2.value(), "[+]");
    assert_eq!(t3.value(), "[+]".repeat(3));
    assert_eq!(t4.value(), "[+]".repeat(15));
}

#[test]
fn test_text_composition2() {
    let t1 = PlainText::from("x|x");
    let t2 = PlainText::from("[+]");
    let t3 = RepeatedText::with_parts(t2.clone_box(), 3);
    let t4 = RepeatedText::with_parts(t3.clone_box(), 5);
    let mut tvec: Vec<Texts> = Vec::new();
    tvec.push(t1.clone_box());
    tvec.push(t2.clone_box());
    tvec.push(t3.clone_box());
    tvec.push(t4.clone_box());
    let t5 = PlainText::from("--");
    let t6 = JoinedText::with_parts(&tvec, &t5);
    let ptn = ["x|x", "[+]", &"[+]".repeat(3), &"[+]".repeat(15)];
    let expected = ptn.join("--");
    assert_eq!(t6.value(), expected);
}

#[test]
fn with_parts_copies_its_inputs() {
    let leaf = PlainText::from("q");
    let parts = vec![leaf.clone_box(), leaf.clone_box()];
    let sep = PlainText::from("&");
    let joined = JoinedText::with_parts(&parts, &sep);
    drop(parts);
    drop(sep);
    assert_eq!(joined.value(), "q&q");
}

#[test]
fn joined_of_no_children_is_empty() {
    let parts: Vec<Texts> = Vec::new();
    let sep = PlainText::from("--");
    assert_eq!(JoinedText::with_parts(&parts, &sep).value(), "");
}

#[test]
fn joined_of_one_child_uses_no_separator() {
    let parts = vec![PlainText::from("alone").clone_box()];
    let sep = PlainText::from("--");
    assert_eq!(JoinedText::with_parts(&parts, &sep).value(), "alone");
}

#[test]
fn duplicate_matches_original_values() {
    let t = RepeatedText::with_parts(PlainText::from("ab").clone_box(), 2);
    let copy = t.duplicate();
    assert_eq!(copy.value(), t.value());
    assert_eq!(copy.value(), "abab");
    assert_eq!(t.clone_box().value(), "abab");
}

#[test]
fn both_families_agree_on_value() {
    let enum_tree = Text::Joined(
        vec![
            Box::new(Text::Plain("u".into())),
            Box::new(Text::Repeated(Box::new(Text::Plain("v".into())), 2)),
        ],
        ", ".into(),
    );
    let parts = vec![
        PlainText::from("u").clone_box(),
        Texts::Repeated(RepeatedText::with_parts(PlainText::from("v").clone_box(), 2)),
    ];
    let struct_tree = JoinedText::with_parts(&parts, &PlainText::from(", "));
    assert_eq!(enum_tree.value(), struct_tree.value());
    assert_eq!(struct_tree.value(), "u, vv");
}
