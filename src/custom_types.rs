//! Records, tagged unions and a cons list.
use crate::print::{int_text, int_to_text, push_char, radix, radix_text, write_radix};
use vstd::prelude::*;

verus! {

/// A named person with an age in years.
#[derive(Debug)]
pub struct Person {
    pub name: String,
    pub age: u8,
}

/// Something that happened on a web page.
pub enum WebEvent {
    PageLoad,
    PageUnload,
    KeyPress(char),
    Paste(String),
    Click { x: i64, y: i64 },
}

/// The line that describes `event`: one arm per variant.
pub open spec fn event_text(event: WebEvent) -> Seq<char> {
    match event {
        WebEvent::PageLoad => "Page loaded"@,
        WebEvent::PageUnload => "Page unloaded"@,
        WebEvent::KeyPress(c) => "Pressed \""@ + seq![c] + "\""@,
        WebEvent::Paste(s) => "Pasted \""@ + s@ + "\""@,
        WebEvent::Click { x, y } => "Clicked at x="@ + int_text(x as int) + ", y="@ + int_text(
            y as int,
        ),
    }
}

/// Describes a web event.
pub fn inspect(event: WebEvent) -> (r: String)
    ensures
        r@ == event_text(event),
{
    match event {
        WebEvent::PageLoad => String::from_str("Page loaded"),
        WebEvent::PageUnload => String::from_str("Page unloaded"),
        WebEvent::KeyPress(c) => {
            let mut out = String::from_str("Pressed \"");
            push_char(&mut out, c);
            out.append("\"");
            out
        },
        WebEvent::Paste(s) => {
            let mut out = String::from_str("Pasted \"");
            out.append(s.as_str());
            out.append("\"");
            out
        },
        WebEvent::Click { x, y } => {
            let mut out = String::from_str("Clicked at x=");
            out.append(int_to_text(x).as_str());
            out.append(", y=");
            out.append(int_to_text(y).as_str());
            out
        },
    }
}

/// An arithmetic operation on two numbers.
pub enum VeryVerboseEnumOfThingsToDoWithNumbers {
    Add,
    Subtract,
}

/// A shorter name for the operations.
pub type Operations = VeryVerboseEnumOfThingsToDoWithNumbers;

impl VeryVerboseEnumOfThingsToDoWithNumbers {
    /// What the operation gives on `x` and `y`, as an unbounded integer.
    pub open spec fn apply(&self, x: int, y: int) -> int {
        match self {
            Self::Add => x + y,
            Self::Subtract => x - y,
        }
    }

    /// Applies the operation; the result must fit in an `i32`.
    pub fn run(&self, x: i32, y: i32) -> (r: i32)
        requires
            i32::MIN <= self.apply(x as int, y as int) <= i32::MAX,
        ensures
            r == self.apply(x as int, y as int),
    {
        match self {
            Self::Add => x + y,
            Self::Subtract => x - y,
        }
    }
}

/// Whether someone is rich or poor.
pub enum Status {
    Rich,
    Poor,
}

impl Status {
    /// A line about the status.
    pub fn describe(&self) -> (r: &'static str)
        ensures
            r@ == match self {
                Status::Rich => "The rich have lots of money!"@,
                Status::Poor => "The poor have no money..."@,
            },
    {
        match self {
            Status::Rich => "The rich have lots of money!",
            Status::Poor => "The poor have no money...",
        }
    }
}

/// What someone does for a living.
pub enum Work {
    Civilian,
    Soldier,
}

impl Work {
    /// A line about the work.
    pub fn describe(&self) -> (r: &'static str)
        ensures
            r@ == match self {
                Work::Civilian => "Civilians work!"@,
                Work::Soldier => "Soldiers fight!"@,
            },
    {
        match self {
            Work::Civilian => "Civilians work!",
            Work::Soldier => "Soldiers fight!",
        }
    }
}

/// Small numbers, numbered from zero in declaration order.
pub enum Number {
    Zero,
    One,
    Two,
}

impl Number {
    /// The variant's position among the variants.
    pub fn value(&self) -> (r: i32)
        ensures
            r == match self {
                Number::Zero => 0i32,
                Number::One => 1i32,
                Number::Two => 2i32,
            },
    {
        match self {
            Number::Zero => 0,
            Number::One => 1,
            Number::Two => 2,
        }
    }
}

/// The three primary colours, each with its 24-bit RGB value.
pub enum Color {
    Red,
    Green,
    Blue,
}

/// Red in 24-bit RGB.
pub const RED_RGB: u32 = 0xff0000;
/// Green in 24-bit RGB.
pub const GREEN_RGB: u32 = 0x00ff00;
/// Blue in 24-bit RGB.
pub const BLUE_RGB: u32 = 0x0000ff;

impl Color {
    /// The colour's 24-bit RGB value.
    pub open spec fn rgb_spec(&self) -> u32 {
        match self {
            Color::Red => RED_RGB,
            Color::Green => GREEN_RGB,
            Color::Blue => BLUE_RGB,
        }
    }

    /// The colour's 24-bit RGB value.
    pub fn rgb(&self) -> (r: u32)
        ensures
            r == self.rgb_spec(),
    {
        match self {
            Color::Red => RED_RGB,
            Color::Green => GREEN_RGB,
            Color::Blue => BLUE_RGB,
        }
    }
}

impl Color {
    /// The colour as `#` and six lower-case hexadecimal digits.
    pub fn hex_code(&self) -> (r: String)
        ensures
            r@ == seq!['#'] + crate::print::fill_run(
                '0',
                crate::print::fill_count(radix_text(self.rgb_spec() as nat, 16).len(), 6),
            ) + radix_text(self.rgb_spec() as nat, 16),
    {
        let digits = radix(self.rgb() as u64, 16);
        let padded = crate::print::pad_start(digits.as_str(), 6, '0');
        let mut out = String::new();
        push_char(&mut out, '#');
        out.append(padded.as_str());
        out
    }
}

/// A singly linked list of `u32`: each node owns the rest of the list.
pub enum List {
    Cons(u32, Box<List>),
    Nil,
}

/// The values of a list, from the front.
pub open spec fn list_values(l: List) -> Seq<u32>
    decreases l,
{
    match l {
        List::Cons(head, tail) => seq![head] + list_values(*tail),
        List::Nil => seq![],
    }
}

impl View for List {
    type V = Seq<u32>;

    open spec fn view(&self) -> Seq<u32> {
        list_values(*self)
    }
}

/// The values in decimal, each followed by `, `, and then `Nil`.
pub open spec fn list_text(values: Seq<u32>) -> Seq<char>
    decreases values.len(),
{
    if values.len() == 0 {
        "Nil"@
    } else {
        radix_text(values[0] as nat, 10) + ", "@ + list_text(values.drop_first())
    }
}

impl List {
    /// An empty list.
    pub fn new() -> (r: List)
        ensures
            r@ == Seq::<u32>::empty(),
    {
        List::Nil
    }

    /// The list with `elem` in front of the values of `self`.
    pub fn prepend(self, elem: u32) -> (r: List)
        ensures
            r@ == seq![elem] + self@,
    {
        List::Cons(elem, Box::new(self))
    }

    /// The number of values in the list.
    pub fn len(&self) -> (r: u32)
        requires
            self@.len() <= u32::MAX,
        ensures
            r == self@.len(),
        decreases self,
    {
        match self {
            List::Cons(_, tail) => 1 + tail.len(),
            List::Nil => 0,
        }
    }

    /// The values in decimal, front first, separated by `, ` and ended by
    /// `Nil`: `3, 2, 1, Nil`.
    pub fn stringify(&self) -> (r: String)
        ensures
            r@ == list_text(self@),
        decreases self,
    {
        match self {
            List::Cons(head, tail) => {
                let mut out = String::new();
                write_radix(&mut out, *head as u64, 10);
                out.append(", ");
                out.append(tail.stringify().as_str());
                proof {
                    assert((seq![*head] + list_values(**tail)).drop_first() =~= list_values(**tail));
                }
                out
            },
            List::Nil => String::from_str("Nil"),
        }
    }
}

/// The values of a list that starts as `start` and has `values` prepended
/// to it one by one, first to last.
pub open spec fn prepend_all(start: Seq<u32>, values: Seq<u32>) -> Seq<u32>
    decreases values.len(),
{
    if values.len() == 0 {
        start
    } else {
        seq![values.last()] + prepend_all(start, values.drop_last())
    }
}

/// Prepending values one by one to an empty list gives a list with one
/// value per prepend, the most recently prepended first.
pub proof fn lemma_prepend_order(values: Seq<u32>)
    ensures
        prepend_all(Seq::empty(), values).len() == values.len(),
        prepend_all(Seq::empty(), values) == values.reverse(),
    decreases values.len(),
{
    if values.len() > 0 {
        lemma_prepend_order(values.drop_last());
        assert(seq![values.last()] + values.drop_last().reverse() =~= values.reverse());
    }
}

/// The rendering of any list ends with the terminal marker `Nil`.
pub proof fn lemma_text_ends_with_nil(values: Seq<u32>)
    ensures
        list_text(values).len() >= 3,
        list_text(values).subrange(list_text(values).len() - 3, list_text(values).len() as int)
            == "Nil"@,
    decreases values.len(),
{
    reveal_strlit("Nil");
    if values.len() > 0 {
        lemma_text_ends_with_nil(values.drop_first());
        let head = radix_text(values[0] as nat, 10) + ", "@;
        let rest = list_text(values.drop_first());
        assert(list_text(values) == head + rest);
        assert((head + rest).subrange((head + rest).len() - 3, (head + rest).len() as int)
            =~= rest.subrange(rest.len() - 3, rest.len() as int));
    } else {
        assert("Nil"@.subrange(0, 3) =~= "Nil"@);
    }
}

/// The language these building blocks are written in.
pub const LANGUAGE: &'static str = "Rust";

/// Numbers above this are big.
pub const THRESHOLD: i32 = 10;

/// Whether `n` is above the threshold.
pub fn is_big(n: i32) -> (r: bool)
    ensures
        r == (n > THRESHOLD),
{
    n > THRESHOLD
}

} // verus!
