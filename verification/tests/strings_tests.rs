use fibonacci::basics::{expression_example, plus_one};
use fibonacci::strings::{
    add_big_strings, calculate_length, get_inverse, gives_ownership, return_a_rc_string,
    return_a_string_ref, return_a_string_value, return_string_to_slot,
    stringify_copied_name_with_title, stringify_mutable_name_with_title,
    stringify_my_name_with_title, takes_and_gives,
};

#[test]
fn ownership_helpers_hand_back_their_texts() {
    assert_eq!(gives_ownership(), "your string");
    assert_eq!(takes_and_gives(String::from("round trip")), "round trip");
    assert_eq!(return_a_string_value(), "Hello");
    assert_eq!(return_a_string_ref(), "Hello");
    assert_eq!(*return_a_rc_string(), "Hello");
}

#[test]
fn length_is_counted_in_bytes() {
    assert_eq!(calculate_length(&String::from("Hello, world!")), 13);
    assert_eq!(calculate_length(&String::new()), 0);
    // A two-byte character counts as two.
    assert_eq!(calculate_length(&String::from("é")), 2);
}

#[test]
fn a_slot_is_filled_in_place() {
    let mut slot = String::from("something old");
    return_string_to_slot(&mut slot);
    assert_eq!(slot, "Hello");
}

#[test]
fn titles_are_appended_and_joined() {
    let mut name = vec![String::from("Kevin"), String::from("Smith")];
    let full = stringify_mutable_name_with_title(&mut name);
    assert_eq!(full, "Kevin Smith Esq.");
    assert_eq!(name.len(), 3);
    assert_eq!(name[2], "Esq.");

    let owned = vec![String::from("Kevin"), String::from("Smith")];
    assert_eq!(stringify_my_name_with_title(owned), "Kevin Smith Esq.");

    let mut copied = vec![String::from("Kevin"), String::from("Smith")];
    assert_eq!(
        stringify_copied_name_with_title(&mut copied),
        "Kevin Smith Esq."
    );
    // The copied variant leaves the list alone.
    assert_eq!(copied, vec![String::from("Kevin"), String::from("Smith")]);
}

#[test]
fn a_lone_title_joins_to_itself() {
    assert_eq!(stringify_my_name_with_title(Vec::new()), "Esq.");
}

#[test]
fn only_strictly_longer_strings_are_added() {
    let mut dst = vec![String::from("hello")];
    let src = vec![
        String::from("hi"),
        String::from("longer!"),
        String::from("hey"),
        String::from("hello"),
        String::from("evenlonger!"),
    ];
    add_big_strings(&mut dst, &src);
    assert_eq!(
        dst,
        vec![
            String::from("hello"),
            String::from("longer!"),
            String::from("evenlonger!"),
        ]
    );
    // The source list is read, never changed.
    assert_eq!(src.len(), 5);
}

#[test]
fn the_scales_invert_each_other() {
    assert_eq!(get_inverse("Farenheit"), "Celsius");
    assert_eq!(get_inverse("Celsius"), "Farenheit");
    assert_eq!(get_inverse("kelvin"), "Invalid");
    assert_eq!(get_inverse(""), "Invalid");
}

#[test]
fn the_arithmetic_helpers_compute() {
    assert_eq!(expression_example(), 4);
    assert_eq!(plus_one(5), 6);
    assert_eq!(plus_one(665), 666);
    assert_eq!(plus_one(-1), 0);
}
