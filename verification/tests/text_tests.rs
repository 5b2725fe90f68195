use composites::text::Text;

#[test]
fn test_text_repeated() {
    let t1 = Text::Plain("Hi".into());
    let t2 = Text::Plain("[+]".into());
    let t3 = Text::Repeated(Box::new(t2.duplicate()), 3);
    let t4 = Text::Repeated(Box::new(t3.duplicate()), 5);
    assert_eq!(t1.value(), "Hi");
    assert_eq!(t2.value(), "[+]");
    assert_eq!(t3.value(), "[+]".repeat(3));
    assert_eq!(t4.value(), "[+]".repeat(15));
}

#[test]
fn test_text_composition() {
    let t1 = Text::Plain("x|x".into());
    let t2 = Text::Plain("[+]".into());
    let t3 = Text::Repeated(Box::new(t2.duplicate()), 3);
    let t4 = Text::Repeated(Box::new(t3.duplicate()), 5);
    let mut tvec: Vec<Box<Text>> = Vec::new();
    tvec.push(Box::new(t1));
    tvec.push(Box::new(t2));
    tvec.push(Box::new(t3));
    tvec.push(Box::new(t4));
    let t5 = Text::Plain("--".into());
    let t6 = Text::Joined(tvec, t5.value());
    let ptn = ["x|x", "[+]", &"[+]".repeat(3), &"[+]".repeat(15)];
    let expected = ptn.join("--");
    assert_eq!(t6.value(), expected);
}

#[test]
fn repeated_zero_yields_empty_and_one_is_unchanged() {
    let t = Text::Plain("abc".into());
    assert_eq!(Text::Repeated(Box::new(t.duplicate()), 0).value(), "");
    assert_eq!(Text::Repeated(Box::new(t.duplicate()), 1).value(), "abc");
}

#[test]
fn joined_edge_cases() {
    let none: Vec<Box<Text>> = Vec::new();
    assert_eq!(Text::Joined(none, "--".into()).value(), "");
    let one = vec![Box::new(Text::Plain("solo".into()))];
    assert_eq!(Text::Joined(one, "--".into()).value(), "solo");
    let empties = vec![
        Box::new(Text::Plain(String::new())),
        Box::new(Text::Plain(String::new())),
    ];
    assert_eq!(Text::Joined(empties, ";".into()).value(), ";");
}

#[test]
fn duplicate_is_a_deep_copy_with_equal_value() {
    let tree = Text::Joined(
        vec![
            Box::new(Text::Plain("a".into())),
            Box::new(Text::Repeated(Box::new(Text::Plain("b".into())), 4)),
        ],
        "+".into(),
    );
    let copy = tree.duplicate();
    drop(tree);
    assert_eq!(copy.value(), "a+bbbb");
}

#[test]
fn value_is_idempotent() {
    let t = Text::Repeated(Box::new(Text::Plain("xy".into())), 7);
    assert_eq!(t.value(), t.value());
}
