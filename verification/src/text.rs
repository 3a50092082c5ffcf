//! Features as the text that a browser is shown.

use vstd::prelude::*;

use crate::messages::{Feature, FeatureView, Point};

verus! {

/// The character of a decimal digit.
pub open spec fn digit(value: nat) -> char {
    ('0' as nat + value) as char
}

/// A number in decimal digits, without leading zeros.
pub open spec fn digits(value: nat) -> Seq<char>
    decreases value,
{
    if value < 10 {
        seq![digit(value)]
    } else {
        digits(value / 10).push(digit(value % 10))
    }
}

/// A number in decimal digits, with a sign where it is negative.
pub open spec fn decimal(value: int) -> Seq<char> {
    if value < 0 {
        seq!['-'] + digits((-value) as nat)
    } else {
        digits(value as nat)
    }
}

/// A string in quotes, with the characters escaped that need it.
pub uninterp spec fn quoted(text: Seq<char>) -> Seq<char>;

/// The text of a location.
pub open spec fn location_text(location: Option<Point>) -> Seq<char> {
    match location {
        Some(point) => "Some(Point { latitude: "@ + decimal(point.latitude as int)
            + ", longitude: "@ + decimal(point.longitude as int) + " })"@,
        None => "None"@,
    }
}

/// The text of a feature whose name, in quotes, is `quoted_name`.
pub open spec fn labelled_text(quoted_name: Seq<char>, location: Option<Point>) -> Seq<char> {
    "Feature { name: "@ + quoted_name + ", location: "@ + location_text(location) + " }"@
}

/// The text of a feature.
pub open spec fn feature_text(feature: FeatureView) -> Seq<char> {
    labelled_text(quoted(feature.name), feature.location)
}

/// Calls the `Debug` implementation of `str`: the text in quotes, with the
/// characters escaped that need it. Which characters those are is not said.
#[verifier::external_body]
fn quote(text: &str) -> (result: String)
    ensures
        result@ == quoted(text@),
{
    format!("{:?}", text)
}

/// Appends one decimal digit.
fn push_digit(text: &mut String, value: u32)
    requires
        value < 10,
    ensures
        final(text)@ == old(text)@.push(digit(value as nat)),
{
    proof {
        reveal_strlit("0");
        reveal_strlit("1");
        reveal_strlit("2");
        reveal_strlit("3");
        reveal_strlit("4");
        reveal_strlit("5");
        reveal_strlit("6");
        reveal_strlit("7");
        reveal_strlit("8");
        reveal_strlit("9");
    }
    let written: &str = match value {
        0 => "0",
        1 => "1",
        2 => "2",
        3 => "3",
        4 => "4",
        5 => "5",
        6 => "6",
        7 => "7",
        8 => "8",
        _ => "9",
    };
    assert(written@ =~= seq![digit(value as nat)]);
    text.append(written);
    assert(text@ =~= old(text)@.push(digit(value as nat)));
}

/// Appends a number in decimal digits.
fn push_digits(text: &mut String, value: u32)
    ensures
        final(text)@ == old(text)@ + digits(value as nat),
    decreases value,
{
    if value >= 10 {
        push_digits(text, value / 10);
    }
    push_digit(text, value % 10);
    assert(text@ =~= old(text)@ + digits(value as nat));
}

/// Appends a number in decimal digits, with a sign where it is negative.
fn push_decimal(text: &mut String, value: i32)
    ensures
        final(text)@ == old(text)@ + decimal(value as int),
{
    if value < 0 {
        proof {
            reveal_strlit("-");
        }
        assert("-"@ =~= seq!['-']);
        text.append("-");
        push_digits(text, (-(value as i64)) as u32);
        assert(text@ =~= old(text)@ + decimal(value as int));
    } else {
        push_digits(text, value as u32);
    }
}

/// The text of a feature whose name was put in quotes already.
pub fn label_feature(quoted_name: &str, location: &Option<Point>) -> (text: String)
    ensures
        text@ == labelled_text(quoted_name@, *location),
        location matches Some(point) ==> text@ == "Feature { name: "@ + quoted_name@
            + ", location: "@ + ("Some(Point { latitude: "@ + decimal(point.latitude as int)
            + ", longitude: "@ + decimal(point.longitude as int) + " })"@) + " }"@,
        location is None ==> text@ == "Feature { name: "@ + quoted_name@ + ", location: "@
            + "None"@ + " }"@,
{
    let mut text = String::new();
    text.append("Feature { name: ");
    text.append(quoted_name);
    text.append(", location: ");
    let ghost head = text@;
    match location {
        Some(point) => {
            text.append("Some(Point { latitude: ");
            push_decimal(&mut text, point.latitude);
            text.append(", longitude: ");
            push_decimal(&mut text, point.longitude);
            text.append(" })");
        },
        None => {
            text.append("None");
        },
    }
    assert(text@ =~= head + location_text(*location));
    text.append(" }");
    assert(text@ =~= labelled_text(quoted_name@, *location));
    text
}

/// The text of a feature.
pub fn describe_feature(feature: &Feature) -> (text: String)
    ensures
        text@ == feature_text(feature@),
        feature.location matches Some(point) ==> text@ == "Feature { name: "@ + quoted(
            feature.name@,
        ) + ", location: "@ + ("Some(Point { latitude: "@ + decimal(point.latitude as int)
            + ", longitude: "@ + decimal(point.longitude as int) + " })"@) + " }"@,
        feature.location is None ==> text@ == "Feature { name: "@ + quoted(feature.name@)
            + ", location: "@ + "None"@ + " }"@,
{
    label_feature(&quote(&feature.name), &feature.location)
}

/// The text of a feature shows its name in quotes, and its latitude and
/// longitude in decimal, in this order.
pub proof fn text_shows_name_and_coordinates(feature: Feature)
    ensures
        feature.location matches Some(point) ==> feature_text(feature@) == "Feature { name: "@
            + quoted(feature.name@) + ", location: "@ + ("Some(Point { latitude: "@ + decimal(
            point.latitude as int,
        ) + ", longitude: "@ + decimal(point.longitude as int) + " })"@) + " }"@,
        feature.location is None ==> feature_text(feature@) == "Feature { name: "@ + quoted(
            feature.name@,
        ) + ", location: "@ + "None"@ + " }"@,
{
}

/// Digits read back as the number that they were written for. There is nothing
/// among them but digits, and no leading zero.
pub proof fn digits_read_back(value: nat)
    ensures
        digits(value).fold_left(0int, |number: int, c: char| 10 * number + (c as int - '0' as int))
            == value,
        digits(value).len() > 0,
        forall|i: int| 0 <= i < digits(value).len() ==> '0' <= #[trigger] digits(value)[i] <= '9',
        digits(value)[0] == '0' ==> value == 0 && digits(value).len() == 1,
    decreases value,
{
    reveal_with_fuel(Seq::fold_left, 2);
    let text = digits(value);
    if value >= 10 {
        digits_read_back(value / 10);
        assert(text.drop_last() =~= digits(value / 10));
        assert(text.last() == digit(value % 10));
        assert(text[0] == digits(value / 10)[0]);
    } else {
        assert(text.drop_last() =~= Seq::<char>::empty());
    }
}

/// A number below zero is a minus sign and the digits of its opposite; any
/// other number is its digits.
pub proof fn sign_comes_first(value: int)
    ensures
        value < 0 ==> decimal(value) == seq!['-'] + decimal(-value),
        value >= 0 ==> decimal(value) == digits(value as nat),
{
}

/// Different numbers read differently.
pub proof fn numbers_read_differently(one: int, other: int)
    requires
        decimal(one) == decimal(other),
    ensures
        one == other,
{
    let a = if one < 0 { -one } else { one };
    let b = if other < 0 { -other } else { other };
    digits_read_back(a as nat);
    digits_read_back(b as nat);
    if one < 0 {
        assert(decimal(one)[0] == '-');
        assert(decimal(one).drop_first() =~= digits(a as nat));
    } else {
        assert('0' <= decimal(one)[0]);
    }
    if other < 0 {
        assert(decimal(other)[0] == '-');
        assert(decimal(other).drop_first() =~= digits(b as nat));
    } else {
        assert('0' <= decimal(other)[0]);
    }
}

/// The text of a feature on a line of its own.
pub fn feature_line(feature: &Feature) -> (line: String)
    ensures
        line@ == feature_text(feature@) + "\n"@,
{
    describe_feature(feature).concat("\n")
}

} // verus!
