use rust_basics::flow_of_control::{
    add_ten_in_place, break_with_value, counting_loop, describe_age, describe_answer,
    describe_array, describe_color, describe_foo, describe_number, describe_optional,
    describe_sign, describe_temperature, describe_triple, fizzbuzz, fizzbuzz_for,
    fizzbuzz_while, get_count_item, greet, greet_all, greet_owned, nested_loops, rewrite_names,
    same_text, while_let_lines, Color, Foo, Temperature,
};

fn expected_fizzbuzz(n: u32) -> String {
    if n % 15 == 0 {
        "fizzbuzz".to_string()
    } else if n % 3 == 0 {
        "fizz".to_string()
    } else if n % 5 == 0 {
        "buzz".to_string()
    } else {
        n.to_string()
    }
}

#[test]
fn fizzbuzz_single_lines() {
    assert_eq!(fizzbuzz(15), "fizzbuzz");
    assert_eq!(fizzbuzz(9), "fizz");
    assert_eq!(fizzbuzz(10), "buzz");
    assert_eq!(fizzbuzz(98), "98");
    assert_eq!(fizzbuzz(1), "1");
}

#[test]
fn fizzbuzz_hundred_lines_both_styles() {
    let a = fizzbuzz_while(100);
    let b = fizzbuzz_for(100);
    assert_eq!(a.len(), 100);
    assert_eq!(a, b);
    for n in 1..=100u32 {
        assert_eq!(a[(n - 1) as usize], expected_fizzbuzz(n));
    }
}

#[test]
fn fizzbuzz_no_lines() {
    assert!(fizzbuzz_while(0).is_empty());
    assert!(fizzbuzz_for(0).is_empty());
}

#[test]
fn counting_to_five() {
    assert_eq!(
        counting_loop(5),
        vec!["Haha, one!", "1", "2", "3", "4", "5", "I think we get the point"]
    );
}

#[test]
fn labelled_break_skips_rest() {
    assert_eq!(
        nested_loops(),
        vec!["Entered the outer loop", "Entered the inner loop", "Exited the outer loop"]
    );
}

#[test]
fn loop_yields_twenty() {
    assert_eq!(break_with_value(10), 20);
    assert_eq!(break_with_value(1), 2);
}

#[test]
fn text_comparison() {
    assert!(same_text("Ferris", "Ferris"));
    assert!(!same_text("Ferris", "Ferri"));
    assert!(!same_text("Bob", "Bab"));
    assert!(same_text("", ""));
}

#[test]
fn greetings_borrowed_and_owned() {
    let names = vec!["Bob", "Frank", "Ferris"];
    let expected = vec!["Hello Bob", "Hello Frank", "There is a rustacean among us!"];
    assert_eq!(greet_all(&names), expected);
    assert_eq!(names, vec!["Bob", "Frank", "Ferris"]);
    assert_eq!(greet_owned(names), expected);
    assert_eq!(greet("ferris"), "Hello ferris");
}

#[test]
fn names_rewritten_in_place() {
    let mut names = vec!["Bob", "Frank", "Ferris"];
    rewrite_names(&mut names);
    assert_eq!(names, vec!["Hello", "Hello", "There is a rustacean among us!"]);
}

#[test]
fn number_arms() {
    assert_eq!(describe_number(13), "A teen");
    assert_eq!(describe_number(1), "Haha, one!");
    assert_eq!(describe_number(11), "This is a prime");
    assert_eq!(describe_number(19), "A teen");
    assert_eq!(describe_number(20), "Ain't nothin' special");
    assert_eq!(describe_number(-1), "Ain't nothin' special");
}

#[test]
fn triple_arms_in_order() {
    assert_eq!(describe_triple((0, -2, 3)), "0 then -2 then 3");
    assert_eq!(describe_triple((1, 0, 2)), "First is 1 and the rest who knows");
    assert_eq!(describe_triple((3, 0, 2)), "Last is 2 and who cares about the rest");
    assert_eq!(
        describe_triple((3, 9, 4)),
        "First is 3, last is 4, what's the middle? I don't care"
    );
    assert_eq!(describe_triple((5, 5, 5)), "Who cares as usual");
}

#[test]
fn array_arms() {
    assert_eq!(describe_array([1, -2, 6]), "array[0] = 1, middle = [-2], array[2] = 6");
    assert_eq!(
        describe_array([3, -2, 6]),
        "array[0] = 3, array[1] = -2 and the other elements were [6]"
    );
}

#[test]
fn every_color_variant() {
    assert_eq!(describe_color(Color::Red), "The color is Red!");
    assert_eq!(describe_color(Color::Blue), "The color is Blue!");
    assert_eq!(describe_color(Color::Green), "The color is Green!");
    assert_eq!(describe_color(Color::RGB(122, 17, 40)), "Red: 122, green: 17, and blue: 40!");
    assert_eq!(describe_color(Color::HSV(1, 2, 3)), "Hue: 1, saturation: 2, value: 3!");
    assert_eq!(describe_color(Color::HSL(1, 2, 3)), "Hue: 1, saturation: 2, lightness: 3!");
    assert_eq!(describe_color(Color::CMY(4, 5, 6)), "Cyan: 4, magenta: 5, yellow: 6!");
    assert_eq!(
        describe_color(Color::CMYK(4, 5, 6, 7)),
        "Cyan: 4, magenta: 5, yellow: 6, key (black): 7!"
    );
}

#[test]
fn ref_mut_adds_ten() {
    let mut mut_value = 6;
    add_ten_in_place(&mut mut_value);
    assert_eq!(mut_value, 16);
}

#[test]
fn record_arms() {
    assert_eq!(describe_foo(Foo { x: (1, 2), y: 3 }), "First of x is 1, b = 2,  y = 3 ");
    assert_eq!(describe_foo(Foo { x: (5, 6), y: 2 }), "y is 2, i = (5, 6)");
    assert_eq!(describe_foo(Foo { x: (5, 6), y: 9 }), "y = 9, we don't care about x");
}

#[test]
fn temperature_guards() {
    assert_eq!(describe_temperature(Temperature::Celsius(35)), "35C is above 30 Celsius");
    assert_eq!(describe_temperature(Temperature::Celsius(30)), "30C is below 30 Celsius");
    assert_eq!(describe_temperature(Temperature::Fahrenheit(87)), "87F is above 86 Fahrenheit");
    assert_eq!(describe_temperature(Temperature::Fahrenheit(-40)), "-40F is below 86 Fahrenheit");
}

#[test]
fn sign_arms() {
    assert_eq!(describe_sign(4), "Greater than zero");
    assert_eq!(describe_sign(0), "Zero");
}

#[test]
fn age_bindings() {
    assert_eq!(describe_age(15), "I'm a teen of age 15");
    assert_eq!(describe_age(0), "I haven't celebrated my first birthday yet");
    assert_eq!(describe_age(12), "I'm a child of age 12");
    assert_eq!(describe_age(20), "I'm an old person of age 20");
}

#[test]
fn answer_binding() {
    assert_eq!(describe_answer(Some(42)), Some("The Answer: 42!".to_string()));
    assert_eq!(describe_answer(Some(7)), Some("Not interesting... 7".to_string()));
    assert_eq!(describe_answer(None), None);
}

#[test]
fn if_let_chains() {
    assert_eq!(describe_optional(Some(7), false), "Matched 7!");
    assert_eq!(describe_optional(None, true), "Didn't match a number. Let's go with a letter!");
    assert_eq!(
        describe_optional(None, false),
        "I don't lile letters. Let's go with an emoticon :)!"
    );
}

#[test]
fn while_let_from_zero() {
    let lines = while_let_lines(0);
    assert_eq!(lines.len(), 11);
    assert_eq!(lines[0], "i is 0. Try again");
    assert_eq!(lines[9], "i is 9. Try again");
    assert_eq!(lines[10], "Greater than 9, quit!");
    assert_eq!(while_let_lines(50), vec!["Greater than 9, quit!"]);
}

#[test]
fn count_item_pairs() {
    assert_eq!(get_count_item("3 chairs"), Some((3, "chairs")));
    assert_eq!(get_count_item("+12 red chairs"), Some((12, "red")));
    assert_eq!(get_count_item("3 "), Some((3, "")));
    assert_eq!(get_count_item("chairs"), None);
    assert_eq!(get_count_item("three chairs"), None);
    assert_eq!(get_count_item(" chairs"), None);
    assert_eq!(get_count_item("18446744073709551616 x"), None);
    assert_eq!(get_count_item("18446744073709551615 x"), Some((u64::MAX, "x")));
}
