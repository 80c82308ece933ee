//! Loops, iteration and pattern matching, each as a function whose result
//! is the text it stands for.
use crate::print::{digit_char, int_text, int_to_text, radix, radix_text, write_radix};
use vstd::arithmetic::div_mod::lemma_div_decreases;
use vstd::prelude::*;

verus! {

/// The texts of a sequence of strings.
pub open spec fn texts(v: Seq<String>) -> Seq<Seq<char>> {
    v.map_values(|s: String| s@)
}

proof fn lemma_texts_push(v: Seq<String>, s: String)
    ensures
        texts(v.push(s)) == texts(v).push(s@),
{
    assert(texts(v.push(s)) =~= texts(v).push(s@));
}

/// The FizzBuzz line for `n`.
pub open spec fn fizzbuzz_text(n: nat) -> Seq<char> {
    if n % 15 == 0 {
        "fizzbuzz"@
    } else if n % 3 == 0 {
        "fizz"@
    } else if n % 5 == 0 {
        "buzz"@
    } else {
        radix_text(n, 10)
    }
}

/// The FizzBuzz lines for 1 to `last`.
pub open spec fn fizzbuzz_lines(last: nat) -> Seq<Seq<char>> {
    Seq::new(last, |i: int| fizzbuzz_text((i + 1) as nat))
}

/// The FizzBuzz line for `n`.
pub fn fizzbuzz(n: u32) -> (r: String)
    ensures
        r@ == fizzbuzz_text(n as nat),
{
    if n % 15 == 0 {
        String::from_str("fizzbuzz")
    } else if n % 3 == 0 {
        String::from_str("fizz")
    } else if n % 5 == 0 {
        String::from_str("buzz")
    } else {
        radix(n as u64, 10)
    }
}

/// The FizzBuzz lines for 1 to `last`, by a pre-tested loop.
pub fn fizzbuzz_while(last: u32) -> (r: Vec<String>)
    requires
        last < u32::MAX,
    ensures
        texts(r@) == fizzbuzz_lines(last as nat),
{
    let mut out: Vec<String> = Vec::new();
    let mut n: u32 = 1;
    while n < last + 1
        invariant
            1 <= n <= last + 1,
            last < u32::MAX,
            texts(out@) == fizzbuzz_lines((n - 1) as nat),
        decreases last + 1 - n,
    {
        let ghost before = out@;
        let line = fizzbuzz(n);
        out.push(line);
        proof {
            lemma_texts_push(before, line);
            assert(fizzbuzz_lines(n as nat) =~= fizzbuzz_lines((n - 1) as nat).push(
                fizzbuzz_text(n as nat),
            ));
        }
        n = n + 1;
    }
    out
}

/// The FizzBuzz lines for 1 to `last`, by iterating over a range.
pub fn fizzbuzz_for(last: u32) -> (r: Vec<String>)
    requires
        last < u32::MAX,
    ensures
        texts(r@) == fizzbuzz_lines(last as nat),
{
    let mut out: Vec<String> = Vec::new();
    for n in 1..last + 1
        invariant
            1 <= n <= last + 1,
            texts(out@) == fizzbuzz_lines((n - 1) as nat),
    {
        let ghost before = out@;
        let line = fizzbuzz(n);
        out.push(line);
        proof {
            lemma_texts_push(before, line);
            assert(fizzbuzz_lines(n as nat) =~= fizzbuzz_lines((n - 1) as nat).push(
                fizzbuzz_text(n as nat),
            ));
        }
    }
    out
}

proof fn lemma_radix_digits(n: nat, base: nat)
    requires
        2 <= base <= 16,
    ensures
        radix_text(n, base).len() >= 1,
        forall|i: int|
            0 <= i < radix_text(n, base).len() ==> exists|d: nat|
                d < base && #[trigger] radix_text(n, base)[i] == digit_char(d),
    decreases n,
{
    if n >= base {
        lemma_div_decreases(n as int, base as int);
        lemma_radix_digits(n / base, base);
        let t = radix_text(n, base);
        assert forall|i: int| 0 <= i < t.len() implies exists|d: nat|
            d < base && #[trigger] t[i] == digit_char(d) by {
            if i == t.len() - 1 {
                assert(t[i] == digit_char(n % base));
            } else {
                assert(t[i] == radix_text(n / base, base)[i]);
            }
        }
    } else {
        assert(radix_text(n, base)[0] == digit_char(n));
    }
}

/// Each FizzBuzz line from 1 to 100 is `fizzbuzz` exactly for multiples of
/// fifteen, `fizz` exactly for the other multiples of three, `buzz` exactly
/// for the other multiples of five, and otherwise the number in decimal.
pub proof fn lemma_fizzbuzz_cases(n: nat)
    requires
        1 <= n <= 100,
    ensures
        (fizzbuzz_text(n) == "fizzbuzz"@) <==> n % 15 == 0,
        (fizzbuzz_text(n) == "fizz"@) <==> (n % 3 == 0 && n % 15 != 0),
        (fizzbuzz_text(n) == "buzz"@) <==> (n % 5 == 0 && n % 15 != 0),
        (n % 3 != 0 && n % 5 != 0) ==> fizzbuzz_text(n) == radix_text(n, 10),
{
    reveal_strlit("fizzbuzz");
    reveal_strlit("fizz");
    reveal_strlit("buzz");
    if n % 3 != 0 && n % 5 != 0 {
        lemma_radix_digits(n, 10);
        let t = radix_text(n, 10);
        let d = choose|d: nat| d < 10 && t[0] == digit_char(d);
        assert(t[0] != 'f' && t[0] != 'b');
        assert(t != "fizzbuzz"@ && t != "fizz"@ && t != "buzz"@);
    }
    assert("fizz"@.len() != "fizzbuzz"@.len());
    assert("buzz"@[0] != "fizz"@[0]);
    assert("buzz"@ != "fizzbuzz"@);
}

/// The lines of a counting loop that stops at `stop`: a one-time greeting,
/// then every count from 1 to `stop`, then a closing line.
pub open spec fn counting_lines(stop: nat) -> Seq<Seq<char>> {
    seq!["Haha, one!"@] + Seq::new(stop, |i: int| radix_text((i + 1) as nat, 10)) + seq![
        "I think we get the point"@,
    ]
}

/// Counts up from one in an unbounded loop and leaves it at `stop`.
pub fn counting_loop(stop: u32) -> (r: Vec<String>)
    requires
        stop >= 1,
    ensures
        texts(r@) == counting_lines(stop as nat),
{
    let mut out: Vec<String> = Vec::new();
    let mut count: u32 = 0;
    loop
        invariant_except_break
            count < stop,
            count == 0 ==> out@.len() == 0,
            count > 0 ==> texts(out@) == seq!["Haha, one!"@] + Seq::new(
                count as nat,
                |i: int| radix_text((i + 1) as nat, 10),
            ),
        ensures
            texts(out@) == counting_lines(stop as nat),
        decreases stop - count,
    {
        count = count + 1;
        if count == 1 {
            let ghost before = out@;
            let line = String::from_str("Haha, one!");
            out.push(line);
            proof {
                lemma_texts_push(before, line);
            }
        }
        let ghost before = out@;
        let line = radix(count as u64, 10);
        out.push(line);
        proof {
            lemma_texts_push(before, line);
            assert(seq!["Haha, one!"@] + Seq::new(
                count as nat,
                |i: int| radix_text((i + 1) as nat, 10),
            ) =~= texts(out@));
        }
        if count == stop {
            let ghost before = out@;
            let line = String::from_str("I think we get the point");
            out.push(line);
            proof {
                lemma_texts_push(before, line);
                assert(texts(out@) =~= counting_lines(stop as nat));
            }
            break ;
        }
    }
    out
}

/// Enters an outer and an inner loop and leaves both from the inner one:
/// the statement after the inner loop is never reached.
#[allow(unreachable_code)]
pub fn nested_loops() -> (r: Vec<&'static str>)
    ensures
        r@.len() == 3,
        r@[0]@ == "Entered the outer loop"@,
        r@[1]@ == "Entered the inner loop"@,
        r@[2]@ == "Exited the outer loop"@,
{
    let mut out: Vec<&'static str> = Vec::new();
    'outer: loop
        invariant_except_break
            out@.len() == 0,
        ensures
            out@.len() == 2,
            out@[0]@ == "Entered the outer loop"@,
            out@[1]@ == "Entered the inner loop"@,
        decreases 1 - out@.len(),
    {
        out.push("Entered the outer loop");
        loop
            invariant_except_break
                out@.len() == 1,
                out@[0]@ == "Entered the outer loop"@,
            decreases 2 - out@.len(),
        {
            out.push("Entered the inner loop");
            break 'outer;
        }
        out.push("This point will never be reached");
    }
    out.push("Exited the outer loop");
    out
}

/// Counts up from one until the count reaches `stop`, and leaves the loop
/// with twice the count.
pub fn break_with_value(stop: u32) -> (r: u32)
    requires
        1 <= stop <= u32::MAX / 2,
    ensures
        r == 2 * stop,
{
    let mut counter: u32 = 0;
    let mut result: u32 = 0;
    loop
        invariant_except_break
            counter < stop,
        invariant
            stop <= u32::MAX / 2,
        ensures
            result == 2 * stop,
        decreases stop - counter,
    {
        counter = counter + 1;
        if counter == stop {
            result = counter * 2;
            break ;
        }
    }
    result
}

/// Whether two texts hold the same characters.
pub fn same_text(a: &str, b: &str) -> (r: bool)
    ensures
        r == (a@ == b@),
{
    let n = a.unicode_len();
    if n != b.unicode_len() {
        return false;
    }
    let mut i: usize = 0;
    while i < n
        invariant
            n == a@.len(),
            n == b@.len(),
            i <= n,
            a@.subrange(0, i as int) == b@.subrange(0, i as int),
        decreases n - i,
    {
        if a.get_char(i) != b.get_char(i) {
            return false;
        }
        assert(a@.subrange(0, i + 1) =~= a@.subrange(0, i as int).push(a@[i as int]));
        assert(b@.subrange(0, i + 1) =~= b@.subrange(0, i as int).push(b@[i as int]));
        i = i + 1;
    }
    assert(a@ =~= a@.subrange(0, n as int));
    assert(b@ =~= b@.subrange(0, n as int));
    true
}

/// The name that is greeted differently.
pub const RUSTACEAN: &'static str = "Ferris";

/// The line for one name: the rustacean is announced, anyone else greeted.
pub open spec fn greeting_text(name: Seq<char>) -> Seq<char> {
    if name == RUSTACEAN@ {
        "There is a rustacean among us!"@
    } else {
        "Hello "@ + name
    }
}

/// Greets one name.
pub fn greet(name: &str) -> (r: String)
    ensures
        r@ == greeting_text(name@),
{
    if same_text(name, RUSTACEAN) {
        String::from_str("There is a rustacean among us!")
    } else {
        let mut out = String::from_str("Hello ");
        out.append(name);
        out
    }
}

/// The greetings for a sequence of names, in order.
pub open spec fn greetings(names: Seq<&str>) -> Seq<Seq<char>> {
    names.map_values(|n: &str| greeting_text(n@))
}

/// Greets each name through a shared borrow: the names stay usable.
pub fn greet_all(names: &Vec<&str>) -> (r: Vec<String>)
    ensures
        texts(r@) == greetings(names@),
{
    let mut out: Vec<String> = Vec::new();
    let mut i: usize = 0;
    while i < names.len()
        invariant
            i <= names@.len(),
            texts(out@) == greetings(names@.subrange(0, i as int)),
        decreases names@.len() - i,
    {
        let ghost before = out@;
        let line = greet(names[i]);
        out.push(line);
        proof {
            lemma_texts_push(before, line);
            assert(greetings(names@.subrange(0, i + 1)) =~= greetings(
                names@.subrange(0, i as int),
            ).push(greeting_text(names@[i as int]@)));
        }
        i = i + 1;
    }
    assert(names@.subrange(0, i as int) =~= names@);
    out
}

/// Greets each name, consuming the names.
pub fn greet_owned(names: Vec<&str>) -> (r: Vec<String>)
    ensures
        texts(r@) == greetings(names@),
{
    let ghost all = names@;
    let mut out: Vec<String> = Vec::new();
    for name in it: names.into_iter()
        invariant
            it.seq() == all,
            texts(out@) == greetings(all.subrange(0, it.index() as int)),
    {
        let ghost before = out@;
        let line = greet(name);
        out.push(line);
        proof {
            lemma_texts_push(before, line);
            assert(greetings(all.subrange(0, it.index() + 1)) =~= greetings(
                all.subrange(0, it.index() as int),
            ).push(greeting_text(name@)));
        }
    }
    assert(all.subrange(0, all.len() as int) =~= all);
    out
}

/// What a name becomes when rewritten in place.
pub open spec fn rewritten_text(name: Seq<char>) -> Seq<char> {
    if name == RUSTACEAN@ {
        "There is a rustacean among us!"@
    } else {
        "Hello"@
    }
}

/// Rewrites every name in place through a mutable borrow: the rustacean
/// becomes an announcement and every other name `Hello`.
pub fn rewrite_names(names: &mut Vec<&str>)
    ensures
        final(names)@.len() == old(names)@.len(),
        forall|i: int|
            0 <= i < old(names)@.len() ==> #[trigger] final(names)@[i]@ == rewritten_text(
                old(names)@[i]@,
            ),
{
    let mut i: usize = 0;
    while i < names.len()
        invariant
            i <= names@.len(),
            names@.len() == old(names)@.len(),
            forall|j: int| 0 <= j < i ==> #[trigger] names@[j]@ == rewritten_text(old(names)@[j]@),
            forall|j: int| i <= j < names@.len() ==> #[trigger] names@[j] == old(names)@[j],
        decreases names@.len() - i,
    {
        let replacement: &'static str = if same_text(names[i], RUSTACEAN) {
            "There is a rustacean among us!"
        } else {
            "Hello"
        };
        names.set(i, replacement);
        i = i + 1;
    }
}

/// What is said about a number: one, a small prime, a teen, or nothing
/// special; the first arm that matches wins.
pub fn describe_number(n: i32) -> (r: &'static str)
    ensures
        r@ == (if n == 1 {
            "Haha, one!"@
        } else if n == 2 || n == 3 || n == 5 || n == 7 || n == 11 {
            "This is a prime"@
        } else if 13 <= n <= 19 {
            "A teen"@
        } else {
            "Ain't nothin' special"@
        }),
{
    match n {
        1 => "Haha, one!",
        2 | 3 | 5 | 7 | 11 => "This is a prime",
        13..=19 => "A teen",
        _ => "Ain't nothin' special",
    }
}

/// The line for a triple, by the first arm in order whose fixed elements
/// match.
pub open spec fn triple_text(t: (i32, i32, i32)) -> Seq<char> {
    if t.0 == 0 {
        "0 then "@ + int_text(t.1 as int) + " then "@ + int_text(t.2 as int)
    } else if t.0 == 1 {
        "First is 1 and the rest who knows"@
    } else if t.2 == 2 {
        "Last is 2 and who cares about the rest"@
    } else if t.0 == 3 && t.2 == 4 {
        "First is 3, last is 4, what's the middle? I don't care"@
    } else {
        "Who cares as usual"@
    }
}

/// Describes a triple by matching its leading and trailing elements.
pub fn describe_triple(t: (i32, i32, i32)) -> (r: String)
    ensures
        r@ == triple_text(t),
{
    match t {
        (0, y, z) => {
            let mut out = String::from_str("0 then ");
            out.append(int_to_text(y as i64).as_str());
            out.append(" then ");
            out.append(int_to_text(z as i64).as_str());
            out
        },
        (1, ..) => String::from_str("First is 1 and the rest who knows"),
        (.., 2) => String::from_str("Last is 2 and who cares about the rest"),
        (3, .., 4) => String::from_str("First is 3, last is 4, what's the middle? I don't care"),
        _ => String::from_str("Who cares as usual"),
    }
}

/// One element shown as a list: `[x]`.
pub open spec fn bracketed(x: i32) -> Seq<char> {
    "["@ + int_text(x as int) + "]"@
}

/// The line for an array of three, whose first arm binds the rest after a
/// leading 3 and whose second binds the first, the middle and the last.
pub open spec fn array_text(a: Seq<i32>) -> Seq<char> {
    if a[0] == 3 {
        "array[0] = 3, array[1] = "@ + int_text(a[1] as int) + " and the other elements were "@
            + bracketed(a[2])
    } else {
        "array[0] = "@ + int_text(a[0] as int) + ", middle = "@ + bracketed(a[1])
            + ", array[2] = "@ + int_text(a[2] as int)
    }
}

fn bracketed_text(x: i32) -> (r: String)
    ensures
        r@ == bracketed(x),
{
    let mut out = String::from_str("[");
    out.append(int_to_text(x as i64).as_str());
    out.append("]");
    out
}

/// Describes an array of three elements by destructuring it.
pub fn describe_array(a: [i32; 3]) -> (r: String)
    ensures
        r@ == array_text(a@),
{
    let first = a[0];
    let second = a[1];
    let last = a[2];
    if first == 3 {
        let mut out = String::from_str("array[0] = 3, array[1] = ");
        out.append(int_to_text(second as i64).as_str());
        out.append(" and the other elements were ");
        out.append(bracketed_text(last).as_str());
        out
    } else {
        let mut out = String::from_str("array[0] = ");
        out.append(int_to_text(first as i64).as_str());
        out.append(", middle = ");
        out.append(bracketed_text(second).as_str());
        out.append(", array[2] = ");
        out.append(int_to_text(last as i64).as_str());
        out
    }
}

/// A colour, by name or by its components in one of five colour models.
pub enum Color {
    Red,
    Blue,
    Green,
    RGB(u32, u32, u32),
    HSV(u32, u32, u32),
    HSL(u32, u32, u32),
    CMY(u32, u32, u32),
    CMYK(u32, u32, u32, u32),
}

/// The decimal text of a component.
pub open spec fn num(n: u32) -> Seq<char> {
    radix_text(n as nat, 10)
}

/// The line for a colour: exactly one per variant.
pub open spec fn color_text(c: Color) -> Seq<char> {
    match c {
        Color::Red => "The color is Red!"@,
        Color::Blue => "The color is Blue!"@,
        Color::Green => "The color is Green!"@,
        Color::RGB(r, g, b) => "Red: "@ + num(r) + ", green: "@ + num(g) + ", and blue: "@ + num(b)
            + "!"@,
        Color::HSV(h, s, v) => "Hue: "@ + num(h) + ", saturation: "@ + num(s) + ", value: "@ + num(
            v,
        ) + "!"@,
        Color::HSL(h, s, l) => "Hue: "@ + num(h) + ", saturation: "@ + num(s) + ", lightness: "@
            + num(l) + "!"@,
        Color::CMY(c, m, y) => "Cyan: "@ + num(c) + ", magenta: "@ + num(m) + ", yellow: "@ + num(y)
            + "!"@,
        Color::CMYK(c, m, y, k) => "Cyan: "@ + num(c) + ", magenta: "@ + num(m) + ", yellow: "@
            + num(y) + ", key (black): "@ + num(k) + "!"@,
    }
}

/// Appends `label`, then `n` in decimal.
fn push_field(out: &mut String, label: &str, n: u32)
    ensures
        final(out)@ == old(out)@ + label@ + num(n),
{
    out.append(label);
    write_radix(out, n as u64, 10);
    assert(final(out)@ =~= old(out)@ + label@ + num(n));
}

/// Describes a colour, destructuring the components of each colour model.
pub fn describe_color(c: Color) -> (r: String)
    ensures
        r@ == color_text(c),
{
    let mut out = String::new();
    match c {
        Color::Red => out.append("The color is Red!"),
        Color::Blue => out.append("The color is Blue!"),
        Color::Green => out.append("The color is Green!"),
        Color::RGB(r, g, b) => {
            push_field(&mut out, "Red: ", r);
            push_field(&mut out, ", green: ", g);
            push_field(&mut out, ", and blue: ", b);
            out.append("!");
        },
        Color::HSV(h, s, v) => {
            push_field(&mut out, "Hue: ", h);
            push_field(&mut out, ", saturation: ", s);
            push_field(&mut out, ", value: ", v);
            out.append("!");
        },
        Color::HSL(h, s, l) => {
            push_field(&mut out, "Hue: ", h);
            push_field(&mut out, ", saturation: ", s);
            push_field(&mut out, ", lightness: ", l);
            out.append("!");
        },
        Color::CMY(c, m, y) => {
            push_field(&mut out, "Cyan: ", c);
            push_field(&mut out, ", magenta: ", m);
            push_field(&mut out, ", yellow: ", y);
            out.append("!");
        },
        Color::CMYK(c, m, y, k) => {
            push_field(&mut out, "Cyan: ", c);
            push_field(&mut out, ", magenta: ", m);
            push_field(&mut out, ", yellow: ", y);
            push_field(&mut out, ", key (black): ", k);
            out.append("!");
        },
    }
    assert(out@ =~= color_text(c));
    out
}

/// Adds ten to a value through a mutable borrow taken by a `ref mut`
/// binding: the change is seen by the owner afterwards.
pub fn add_ten_in_place(value: &mut i32)
    requires
        *old(value) <= i32::MAX - 10,
    ensures
        *final(value) == *old(value) + 10,
{
    match value {
        m => {
            *m += 10;
        },
    }
}

/// A record with a pair and a number.
pub struct Foo {
    pub x: (u32, u32),
    pub y: u32,
}

/// The line for a record, by the first arm that matches: a pair starting
/// with 1, then `y` equal to 2, then any record with `x` ignored.
pub open spec fn foo_text(foo: Foo) -> Seq<char> {
    if foo.x.0 == 1 {
        "First of x is 1, b = "@ + num(foo.x.1) + ",  y = "@ + num(foo.y) + " "@
    } else if foo.y == 2 {
        "y is 2, i = ("@ + num(foo.x.0) + ", "@ + num(foo.x.1) + ")"@
    } else {
        "y = "@ + num(foo.y) + ", we don't care about x"@
    }
}

/// Describes a record by destructuring its fields.
pub fn describe_foo(foo: Foo) -> (r: String)
    ensures
        r@ == foo_text(foo),
{
    let mut out = String::new();
    match foo {
        Foo { x: (1, b), y } => {
            push_field(&mut out, "First of x is 1, b = ", b);
            push_field(&mut out, ",  y = ", y);
            out.append(" ");
        },
        Foo { y: 2, x: i } => {
            push_field(&mut out, "y is 2, i = (", i.0);
            push_field(&mut out, ", ", i.1);
            out.append(")");
        },
        Foo { y, .. } => {
            push_field(&mut out, "y = ", y);
            out.append(", we don't care about x");
        },
    }
    assert(out@ =~= foo_text(foo));
    out
}

/// A temperature reading in one of two units.
pub enum Temperature {
    Celsius(i32),
    Fahrenheit(i32),
}

/// The line for a reading: each unit has a guarded arm for hot readings and
/// an unguarded one for the rest.
pub open spec fn temperature_text(t: Temperature) -> Seq<char> {
    match t {
        Temperature::Celsius(c) => if c > 30 {
            int_text(c as int) + "C is above 30 Celsius"@
        } else {
            int_text(c as int) + "C is below 30 Celsius"@
        },
        Temperature::Fahrenheit(f) => if f > 86 {
            int_text(f as int) + "F is above 86 Fahrenheit"@
        } else {
            int_text(f as int) + "F is below 86 Fahrenheit"@
        },
    }
}

/// Describes a reading with guarded match arms.
pub fn describe_temperature(t: Temperature) -> (r: String)
    ensures
        r@ == temperature_text(t),
{
    match t {
        Temperature::Celsius(c) if c > 30 => int_to_text(c as i64).concat("C is above 30 Celsius"),
        Temperature::Celsius(c) => int_to_text(c as i64).concat("C is below 30 Celsius"),
        Temperature::Fahrenheit(f) if f > 86 => int_to_text(f as i64).concat(
            "F is above 86 Fahrenheit",
        ),
        Temperature::Fahrenheit(f) => int_to_text(f as i64).concat("F is below 86 Fahrenheit"),
    }
}

/// Whether an unsigned number is zero or above; the catch-all arm that the
/// guards leave is proved unreachable.
pub fn describe_sign(n: u8) -> (r: &'static str)
    ensures
        r@ == (if n == 0 {
            "Zero"@
        } else {
            "Greater than zero"@
        }),
{
    match n {
        i if i == 0 => "Zero",
        i if i > 0 => "Greater than zero",
        _ => unreached(),
    }
}

/// The line for an age, binding the matched range's value.
pub open spec fn age_text(age: u32) -> Seq<char> {
    if age == 0 {
        "I haven't celebrated my first birthday yet"@
    } else if age <= 12 {
        "I'm a child of age "@ + num(age)
    } else if age <= 19 {
        "I'm a teen of age "@ + num(age)
    } else {
        "I'm an old person of age "@ + num(age)
    }
}

/// Describes an age by range, keeping the value matched.
pub fn describe_age(age: u32) -> (r: String)
    ensures
        r@ == age_text(age),
{
    let mut out = String::new();
    match age {
        0 => out.append("I haven't celebrated my first birthday yet"),
        n @ 1..=12 => push_field(&mut out, "I'm a child of age ", n),
        n @ 13..=19 => push_field(&mut out, "I'm a teen of age ", n),
        n => push_field(&mut out, "I'm an old person of age ", n),
    }
    assert(out@ =~= age_text(age));
    out
}

/// The number that is the answer.
pub const ANSWER: u32 = 42;

/// The line for an optional number: the answer, any other number, or no
/// line at all.
pub fn describe_answer(o: Option<u32>) -> (r: Option<String>)
    ensures
        o is None <==> r is None,
        o matches Some(n) ==> r matches Some(t) && t@ == (if n == ANSWER {
            "The Answer: "@ + num(n) + "!"@
        } else {
            "Not interesting... "@ + num(n)
        }),
{
    match o {
        Some(n) if n == ANSWER => {
            let mut out = String::new();
            push_field(&mut out, "The Answer: ", n);
            out.append("!");
            Some(out)
        },
        Some(n) => {
            let mut out = String::new();
            push_field(&mut out, "Not interesting... ", n);
            Some(out)
        },
        _ => None,
    }
}

/// The line for an optional number: the number when there is one, else
/// one of two fallbacks depending on `likes_letters`.
pub open spec fn optional_text(o: Option<i32>, likes_letters: bool) -> Seq<char> {
    match o {
        Some(i) => "Matched "@ + int_text(i as int) + "!"@,
        None => if likes_letters {
            "Didn't match a number. Let's go with a letter!"@
        } else {
            "I don't lile letters. Let's go with an emoticon :)!"@
        },
    }
}

/// Destructures an optional number with `if let`, falling back through an
/// `else if` chain.
pub fn describe_optional(o: Option<i32>, likes_letters: bool) -> (r: String)
    ensures
        r@ == optional_text(o, likes_letters),
{
    if let Some(i) = o {
        let mut out = String::from_str("Matched ");
        out.append(int_to_text(i as i64).as_str());
        out.append("!");
        out
    } else if likes_letters {
        String::from_str("Didn't match a number. Let's go with a letter!")
    } else {
        String::from_str("I don't lile letters. Let's go with an emoticon :)!")
    }
}

/// The lines of a `while let` loop that starts from `Some(start)`: one
/// retry line for each value up to nine, then the line that ends it.
pub open spec fn retry_lines(start: int) -> Seq<Seq<char>> {
    Seq::new(
        if start <= 9 {
            (10 - start) as nat
        } else {
            0
        },
        |k: int| "i is "@ + int_text(start + k) + ". Try again"@,
    ) + seq!["Greater than 9, quit!"@]
}

/// Loops while an optional counter holds a value: it counts up from
/// `start` and is cleared once it passes nine, which ends the loop.
pub fn while_let_lines(start: i32) -> (r: Vec<String>)
    ensures
        texts(r@) == retry_lines(start as int),
{
    let mut out: Vec<String> = Vec::new();
    let mut optional: Option<i32> = Some(start);
    loop
        invariant
            optional matches Some(j) ==> start <= j && (j > start ==> j <= 10) && texts(out@)
                == Seq::new(
                (j - start) as nat,
                |k: int| "i is "@ + int_text(start + k) + ". Try again"@,
            ),
            optional is None ==> texts(out@) == retry_lines(start as int),
        ensures
            texts(out@) == retry_lines(start as int),
        decreases
                (match optional {
                    Some(j) => if j > 9 {
                        1
                    } else {
                        12 - j
                    },
                    None => 0,
                }),
    {
        let i = match optional {
            Some(i) => i,
            None => break ,
        };
        let ghost before = out@;
        if i > 9 {
            let line = String::from_str("Greater than 9, quit!");
            out.push(line);
            proof {
                lemma_texts_push(before, line);
                assert(texts(out@) =~= retry_lines(start as int));
            }
            optional = None;
        } else {
            let mut line = String::from_str("i is ");
            line.append(int_to_text(i as i64).as_str());
            line.append(". Try again");
            out.push(line);
            proof {
                lemma_texts_push(before, line);
                assert(texts(out@) =~= Seq::new(
                    (i + 1 - start) as nat,
                    |k: int| "i is "@ + int_text(start + k) + ". Try again"@,
                ));
            }
            optional = Some(i + 1);
        }
    }
    out
}

/// Whether `c` is an ASCII decimal digit.
pub open spec fn is_digit(c: char) -> bool {
    '0' <= c && c <= '9'
}

/// The value of a run of decimal digits, most significant first.
pub open spec fn digits_value(s: Seq<char>) -> int
    decreases s.len(),
{
    if s.len() == 0 {
        0
    } else {
        digits_value(s.drop_last()) * 10 + (s.last() as int - '0' as int)
    }
}

/// The text without one leading `+`, if it has one.
pub open spec fn unsigned_digits(s: Seq<char>) -> Seq<char> {
    if s.len() > 0 && s[0] == '+' {
        s.drop_first()
    } else {
        s
    }
}

/// Whether the text is an unsigned decimal number that fits in a `u64`: an
/// optional `+`, then one or more digits and nothing else.
pub open spec fn parses_as_u64(s: Seq<char>) -> bool {
    let d = unsigned_digits(s);
    &&& d.len() > 0
    &&& forall|i: int| 0 <= i < d.len() ==> is_digit(#[trigger] d[i])
    &&& digits_value(d) <= u64::MAX
}

/// Relies on `u64::from_str`: it accepts an optional `+` followed by only
/// decimal digits whose value fits, and rejects anything else.
#[verifier::external_body]
fn parse_u64(s: &str) -> (r: Option<u64>)
    ensures
        r is Some <==> parses_as_u64(s@),
        r matches Some(v) ==> v == digits_value(unsigned_digits(s@)),
{
    <u64 as std::str::FromStr>::from_str(s).ok()
}

/// The index of the first space at or after `from`, or the length when
/// there is none.
pub open spec fn space_index(s: Seq<char>, from: int) -> int
    decreases s.len() - from,
{
    if from >= s.len() {
        s.len() as int
    } else if s[from] == ' ' {
        from
    } else {
        space_index(s, from + 1)
    }
}

proof fn lemma_space_index_bounds(s: Seq<char>, from: int)
    requires
        0 <= from <= s.len(),
    ensures
        from <= space_index(s, from) <= s.len(),
        space_index(s, from) < s.len() ==> s[space_index(s, from)] == ' ',
    decreases s.len() - from,
{
    if from < s.len() && s[from] != ' ' {
        lemma_space_index_bounds(s, from + 1);
    }
}

fn find_space(s: &str, from: usize) -> (r: usize)
    requires
        from <= s@.len(),
    ensures
        r == space_index(s@, from as int),
{
    let n = s.unicode_len();
    let mut i = from;
    while i < n
        invariant
            n == s@.len(),
            from <= i <= n,
            space_index(s@, from as int) == space_index(s@, i as int),
        decreases n - i,
    {
        if s.get_char(i) == ' ' {
            return i;
        }
        i = i + 1;
    }
    i
}

/// Splits `s` at its first space into a count and the word after it: the
/// count is the text before the space, the word runs to the next space or
/// the end. `None` when there is no space or the count is no `u64`.
pub fn get_count_item<'a>(s: &'a str) -> (r: Option<(u64, &'a str)>)
    ensures
        r is Some <==> (space_index(s@, 0) < s@.len() && parses_as_u64(
            s@.subrange(0, space_index(s@, 0)),
        )),
        r matches Some((count, item)) ==> {
            let p = space_index(s@, 0);
            &&& count == digits_value(unsigned_digits(s@.subrange(0, p)))
            &&& item@ == s@.subrange(p + 1, space_index(s@, p + 1))
        },
{
    let n = s.unicode_len();
    let p = find_space(s, 0);
    if p >= n {
        return None;
    }
    let count_str = s.substring_char(0, p);
    let count = match parse_u64(count_str) {
        Some(c) => c,
        None => {
            return None;
        },
    };
    let q = find_space(s, p + 1);
    proof {
        lemma_space_index_bounds(s@, p + 1);
    }
    Some((count, s.substring_char(p + 1, q)))
}

} // verus!
