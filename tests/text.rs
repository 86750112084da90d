use interaction_diagram_io::text::{
    chars_of, match_char, match_tag, parse_element_of_preexisting_vec_and_return_index, parse_label_with_underscores,
    skip_multispace,
};

#[test]
fn chars_of_keeps_every_character_in_order() {
    assert_eq!(chars_of("hé l"), vec!['h', 'é', ' ', 'l']);
    assert_eq!(chars_of(""), Vec::<char>::new());
}

#[test]
fn labels_start_with_a_letter_and_take_underscores_and_digits() {
    let input = chars_of("  ab_1 c");
    assert_eq!(parse_label_with_underscores(&input, 0), Some(("ab_1".to_string(), 7)));
    assert_eq!(parse_label_with_underscores(&chars_of("1ab"), 0), None);
    assert_eq!(parse_label_with_underscores(&chars_of("_ab"), 0), None);
    assert_eq!(parse_label_with_underscores(&chars_of("   "), 0), None);
    assert_eq!(parse_label_with_underscores(&chars_of("éte"), 0), None);
    assert_eq!(parse_label_with_underscores(&chars_of("Zé9"), 0), Some(("Zé9".to_string(), 3)));
}

#[test]
fn known_labels_give_their_first_index() {
    let names = vec!["a".to_string(), "bb".to_string(), "a".to_string()];
    assert_eq!(parse_element_of_preexisting_vec_and_return_index(&names, &chars_of(" bb -> x"), 0), Some((1, 4)));
    assert_eq!(parse_element_of_preexisting_vec_and_return_index(&names, &chars_of("a"), 0), Some((0, 1)));
    assert_eq!(parse_element_of_preexisting_vec_and_return_index(&names, &chars_of("c"), 0), None);
}

#[test]
fn tags_and_characters_match_only_where_they_stand() {
    let input = chars_of("a->b");
    assert_eq!(match_tag(&input, 1, &chars_of("->")), Some(3));
    assert_eq!(match_tag(&input, 0, &chars_of("->")), None);
    assert_eq!(match_tag(&input, 3, &chars_of("b->")), None);
    assert_eq!(match_char(&input, 3, 'b'), Some(4));
    assert_eq!(match_char(&input, 4, 'b'), None);
    assert_eq!(skip_multispace(&chars_of(" \t\n\rx "), 0), 4);
}
