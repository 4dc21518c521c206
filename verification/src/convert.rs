use vstd::prelude::*;

use crate::model::{item, ItemView, SearchResultItem};
use crate::text::{
    chars_of, is_ascii_text, contains_chars, contains_seq, to_lower, next_word, push_str, str_eq, str_to_lowercase,
    string_from_chars, string_from_range, string_of, trim, trim_bounds, trimmed_chars, words,
};

verus! {

/// The text of the value that `evalexpr::eval` gives for the expression
/// `expr` (with no variables set), as evalexpr's `Display` for `Value` writes
/// it; `None` when it reports an error. It stands for expressions that are
/// `platform_independent`: their values are fixed by integer arithmetic and
/// by the floating-point operations whose results std fixes on every machine.
pub uninterp spec fn evaluated(expr: Seq<char>) -> Option<Seq<char>>;

/// The expression reaches none of the evalexpr functions that can panic.
/// `str::substring` slices its text by bytes, so an index inside a
/// multi-byte character panics; in an ASCII expression every string value is
/// ASCII (string literals know only the escapes `\"` and `\\`, and the string
/// functions map ASCII text to ASCII text), so there it cannot. `shl` and
/// `shr` shift by an unchecked amount and `math::abs` negates `i64::MIN`
/// unchecked, which panic in builds with overflow checks. So a text naming
/// `shl`, `shr` or `abs`, or naming `substring` while holding a character
/// beyond ASCII, is kept out.
pub open spec fn evaluation_is_safe(expr: Seq<char>) -> bool {
    &&& (!contains_seq(expr, "substring"@) || is_ascii_text(expr))
    &&& !contains_seq(expr, "shl"@)
    &&& !contains_seq(expr, "shr"@)
    &&& !contains_seq(expr, "abs"@)
}

/// The expression uses neither a `math::` function nor `^` (which evalexpr
/// computes with `f64::powf`): the precision of those is left to the
/// platform by std's documentation, so their last digits can differ between
/// machines.
pub open spec fn platform_independent(expr: Seq<char>) -> bool {
    !contains_seq(expr, "math::"@) && !contains_seq(expr, "^"@)
}

/// Calls `evalexpr::eval` and displays its value (evalexpr's `Display` for
/// `Value`); an error becomes `None`. On a `platform_independent` expression
/// the result is named `evaluated`; on another nothing is claimed of it.
/// Nothing is claimed of evalexpr's grammar or arithmetic, and the depth of
/// nesting that its recursive evaluation copes with is not bounded here.
#[verifier::external_body]
fn eval_expression(expr: &str) -> (r: Option<String>)
    requires
        evaluation_is_safe(expr@),
    ensures
        platform_independent(expr@) ==> match r {
            Some(v) => evaluated(expr@) == Some(v@),
            None => evaluated(expr@) is None,
        },
{
    match evalexpr::eval(expr) {
        Ok(value) => Some(value.to_string()),
        Err(_) => None,
    }
}

/// Whether every character of `s` is ASCII.
fn all_ascii(s: &Vec<char>) -> (r: bool)
    ensures
        r == is_ascii_text(s@),
{
    let mut i: usize = 0;
    while i < s.len()
        invariant
            i <= s.len(),
            forall|k: int| 0 <= k < i ==> (#[trigger] s@[k] as u32) < 128,
        decreases s.len() - i,
    {
        if (s[i] as u32) >= 128 {
            return false;
        }
        i = i + 1;
    }
    true
}

/// Whether `expr` passes `evaluation_is_safe`.
fn safe_to_evaluate(expr: &Vec<char>) -> (r: bool)
    ensures
        r == evaluation_is_safe(expr@),
{
    (!contains_chars(expr, &chars_of("substring")) || all_ascii(expr)) && !contains_chars(
        expr,
        &chars_of("shl"),
    ) && !contains_chars(expr, &chars_of("shr")) && !contains_chars(expr, &chars_of("abs"))
}

/// The item shown for `=` with nothing after it.
pub open spec fn enter_expression_item() -> ItemView {
    item(
        "math_error"@,
        "Enter a mathematical expression"@,
        "Example: = 5 * 10"@,
        "conversion"@,
        Seq::empty(),
    )
}

/// The item shown for an evaluated expression: its value, or an error.
pub open spec fn math_item(result: Option<Seq<char>>) -> ItemView {
    match result {
        Some(v) => item(
            "math_result"@,
            "= "@ + v,
            "Result ready (Press Enter to copy)"@,
            "conversion"@,
            v,
        ),
        None => item(
            "math_error"@,
            "Invalid mathematical expression"@,
            "Example: = 5 * 10"@,
            "conversion"@,
            Seq::empty(),
        ),
    }
}

/// `x` is the item of some outcome of an evaluation.
pub open spec fn is_math_item(x: ItemView) -> bool {
    exists|o: Option<Seq<char>>| x == #[trigger] math_item(o)
}

/// The item for the expression `expr`: invalid when it names a function kept
/// out by `evaluation_is_safe`, else the item of what evalexpr gives for it.
pub open spec fn calculation_item(expr: Seq<char>) -> ItemView {
    if evaluation_is_safe(expr) {
        math_item(evaluated(expr))
    } else {
        math_item(None)
    }
}

/// The item for the outcome of evaluating an expression: its displayed
/// value, or `None` when evaluation failed.
pub fn math_result_item(result: Option<String>) -> (r: SearchResultItem)
    ensures
        r@ == math_item(
            match result {
                Some(v) => Some(v@),
                None => None,
            },
        ),
{
    match result {
        Some(v) => {
            let mut title = string_of("= ");
            push_str(&mut title, v.as_str());
            SearchResultItem::new(
                string_of("math_result"),
                title,
                string_of("Result ready (Press Enter to copy)"),
                string_of("conversion"),
                v,
            )
        },
        None => SearchResultItem::new(
            string_of("math_error"),
            string_of("Invalid mathematical expression"),
            string_of("Example: = 5 * 10"),
            string_of("conversion"),
            String::new(),
        ),
    }
}

/// Evaluates an expression with evalexpr and gives the item for it. An
/// expression naming `shl`, `shr` or `abs`, or naming `substring` with a
/// character beyond ASCII, is answered as an invalid expression without
/// calling evalexpr (see `evaluation_is_safe`).
/// Whatever evalexpr gives, the result is the item of an outcome; for a
/// `platform_independent` expression it is `calculation_item`.
pub fn evaluate_expression(expr: &str) -> (r: SearchResultItem)
    ensures
        !evaluation_is_safe(expr@) ==> r@ == math_item(None),
        platform_independent(expr@) ==> r@ == calculation_item(expr@),
        is_math_item(r@),
{
    let e = chars_of(expr);
    if !safe_to_evaluate(&e) {
        let r = math_result_item(None);
        assert(r@ == math_item(None));
        return r;
    }
    let outcome = eval_expression(expr);
    let ghost o = match &outcome {
        Some(v) => Some(v@),
        None => None,
    };
    let r = math_result_item(outcome);
    assert(r@ == math_item(o));
    r
}

/// A unit conversion that the launcher knows.
#[derive(Clone, Copy, Debug, PartialEq, Eq)]
pub enum UnitConversion {
    FeetToMeters,
    MetersToFeet,
    InchesToCentimeters,
    CentimetersToInches,
    MilesToKilometers,
    KilometersToMiles,
    PoundsToKilograms,
    KilogramsToPounds,
    CelsiusToFahrenheit,
    FahrenheitToCelsius,
    PixelsToRem,
    RemToPixels,
}

/// The conversion asked for by a unit word (in lower case), if any.
pub open spec fn unit_conversion(unit: Seq<char>) -> Option<UnitConversion> {
    if unit == "ft"@ || unit == "feet"@ {
        Some(UnitConversion::FeetToMeters)
    } else if unit == "m"@ || unit == "meter"@ || unit == "meters"@ {
        Some(UnitConversion::MetersToFeet)
    } else if unit == "in"@ || unit == "inch"@ || unit == "inches"@ {
        Some(UnitConversion::InchesToCentimeters)
    } else if unit == "cm"@ || unit == "centimeter"@ || unit == "centimeters"@ {
        Some(UnitConversion::CentimetersToInches)
    } else if unit == "mi"@ || unit == "mile"@ || unit == "miles"@ {
        Some(UnitConversion::MilesToKilometers)
    } else if unit == "km"@ || unit == "kilometer"@ || unit == "kilometers"@ {
        Some(UnitConversion::KilometersToMiles)
    } else if unit == "lb"@ || unit == "lbs"@ || unit == "pound"@ || unit == "pounds"@ {
        Some(UnitConversion::PoundsToKilograms)
    } else if unit == "kg"@ || unit == "kilogram"@ || unit == "kilograms"@ {
        Some(UnitConversion::KilogramsToPounds)
    } else if unit == "c"@ || unit == "°c"@ || unit == "celsius"@ {
        Some(UnitConversion::CelsiusToFahrenheit)
    } else if unit == "f"@ || unit == "°f"@ || unit == "fahrenheit"@ {
        Some(UnitConversion::FahrenheitToCelsius)
    } else if unit == "px"@ {
        Some(UnitConversion::PixelsToRem)
    } else if unit == "rem"@ {
        Some(UnitConversion::RemToPixels)
    } else {
        None
    }
}

impl UnitConversion {
    /// The words, in lower case, that name the unit this conversion starts
    /// from.
    pub open spec fn source_unit_words(self) -> Seq<Seq<char>> {
        match self {
            UnitConversion::FeetToMeters => seq!["ft"@, "feet"@],
            UnitConversion::MetersToFeet => seq!["m"@, "meter"@, "meters"@],
            UnitConversion::InchesToCentimeters => seq!["in"@, "inch"@, "inches"@],
            UnitConversion::CentimetersToInches => seq!["cm"@, "centimeter"@, "centimeters"@],
            UnitConversion::MilesToKilometers => seq!["mi"@, "mile"@, "miles"@],
            UnitConversion::KilometersToMiles => seq!["km"@, "kilometer"@, "kilometers"@],
            UnitConversion::PoundsToKilograms => seq!["lb"@, "lbs"@, "pound"@, "pounds"@],
            UnitConversion::KilogramsToPounds => seq!["kg"@, "kilogram"@, "kilograms"@],
            UnitConversion::CelsiusToFahrenheit => seq!["c"@, "°c"@, "celsius"@],
            UnitConversion::FahrenheitToCelsius => seq!["f"@, "°f"@, "fahrenheit"@],
            UnitConversion::PixelsToRem => seq!["px"@],
            UnitConversion::RemToPixels => seq!["rem"@],
        }
    }

    /// The conversion the other way: between the same two units, from the
    /// unit this one converts to.
    pub open spec fn inverse(self) -> UnitConversion {
        match self {
            UnitConversion::FeetToMeters => UnitConversion::MetersToFeet,
            UnitConversion::InchesToCentimeters => UnitConversion::CentimetersToInches,
            UnitConversion::MilesToKilometers => UnitConversion::KilometersToMiles,
            UnitConversion::PoundsToKilograms => UnitConversion::KilogramsToPounds,
            UnitConversion::CelsiusToFahrenheit => UnitConversion::FahrenheitToCelsius,
            UnitConversion::PixelsToRem => UnitConversion::RemToPixels,
            UnitConversion::MetersToFeet => UnitConversion::FeetToMeters,
            UnitConversion::CentimetersToInches => UnitConversion::InchesToCentimeters,
            UnitConversion::KilometersToMiles => UnitConversion::MilesToKilometers,
            UnitConversion::KilogramsToPounds => UnitConversion::PoundsToKilograms,
            UnitConversion::FahrenheitToCelsius => UnitConversion::CelsiusToFahrenheit,
            UnitConversion::RemToPixels => UnitConversion::PixelsToRem,
        }
    }
}

/// Each word of the source unit of `FeetToMeters` asks for it.
proof fn lemma_words_of_feet_to_meters()
    ensures
        forall|i: int|
            0 <= i < UnitConversion::FeetToMeters.source_unit_words().len() ==> unit_conversion(
                #[trigger] UnitConversion::FeetToMeters.source_unit_words()[i],
            ) == Some(UnitConversion::FeetToMeters),
{
    reveal_strlit("ft");
    reveal_strlit("feet");
    assert("ft"@.len() == 2);
    assert("feet"@.len() == 4);
    assert(unit_conversion("ft"@) == Some(UnitConversion::FeetToMeters));
    assert(unit_conversion("feet"@) == Some(UnitConversion::FeetToMeters));
}

/// Each word of the source unit of `MetersToFeet` asks for it.
proof fn lemma_words_of_meters_to_feet()
    ensures
        forall|i: int|
            0 <= i < UnitConversion::MetersToFeet.source_unit_words().len() ==> unit_conversion(
                #[trigger] UnitConversion::MetersToFeet.source_unit_words()[i],
            ) == Some(UnitConversion::MetersToFeet),
{
    reveal_strlit("ft");
    reveal_strlit("feet");
    reveal_strlit("m");
    reveal_strlit("meter");
    reveal_strlit("meters");
    assert("ft"@.len() == 2);
    assert("feet"@.len() == 4);
    assert("m"@.len() == 1);
    assert("meter"@.len() == 5);
    assert("meters"@.len() == 6);
    assert(unit_conversion("m"@) == Some(UnitConversion::MetersToFeet));
    assert(unit_conversion("meter"@) == Some(UnitConversion::MetersToFeet));
    assert(unit_conversion("meters"@) == Some(UnitConversion::MetersToFeet));
}

/// Each word of the source unit of `InchesToCentimeters` asks for it.
proof fn lemma_words_of_inches_to_centimeters()
    ensures
        forall|i: int|
            0 <= i < UnitConversion::InchesToCentimeters.source_unit_words().len() ==> unit_conversion(
                #[trigger] UnitConversion::InchesToCentimeters.source_unit_words()[i],
            ) == Some(UnitConversion::InchesToCentimeters),
{
    reveal_strlit("ft");
    reveal_strlit("feet");
    reveal_strlit("m");
    reveal_strlit("meter");
    reveal_strlit("meters");
    reveal_strlit("in");
    reveal_strlit("inch");
    reveal_strlit("inches");
    assert("ft"@.len() == 2);
    assert("feet"@.len() == 4);
    assert("m"@.len() == 1);
    assert("meter"@.len() == 5);
    assert("meters"@.len() == 6);
    assert("in"@.len() == 2);
    assert("inch"@.len() == 4);
    assert("inches"@.len() == 6);
    assert("in"@[0] != "ft"@[0]);
    assert(unit_conversion("in"@) == Some(UnitConversion::InchesToCentimeters));
    assert("inch"@[0] != "feet"@[0]);
    assert(unit_conversion("inch"@) == Some(UnitConversion::InchesToCentimeters));
    assert("inches"@[0] != "meters"@[0]);
    assert(unit_conversion("inches"@) == Some(UnitConversion::InchesToCentimeters));
}

/// Each word of the source unit of `CentimetersToInches` asks for it.
proof fn lemma_words_of_centimeters_to_inches()
    ensures
        forall|i: int|
            0 <= i < UnitConversion::CentimetersToInches.source_unit_words().len() ==> unit_conversion(
                #[trigger] UnitConversion::CentimetersToInches.source_unit_words()[i],
            ) == Some(UnitConversion::CentimetersToInches),
{
    reveal_strlit("ft");
    reveal_strlit("feet");
    reveal_strlit("m");
    reveal_strlit("meter");
    reveal_strlit("meters");
    reveal_strlit("in");
    reveal_strlit("inch");
    reveal_strlit("inches");
    reveal_strlit("cm");
    reveal_strlit("centimeter");
    reveal_strlit("centimeters");
    assert("ft"@.len() == 2);
    assert("feet"@.len() == 4);
    assert("m"@.len() == 1);
    assert("meter"@.len() == 5);
    assert("meters"@.len() == 6);
    assert("in"@.len() == 2);
    assert("inch"@.len() == 4);
    assert("inches"@.len() == 6);
    assert("cm"@.len() == 2);
    assert("centimeter"@.len() == 10);
    assert("centimeters"@.len() == 11);
    assert("cm"@[0] != "ft"@[0]);
    assert("cm"@[0] != "in"@[0]);
    assert(unit_conversion("cm"@) == Some(UnitConversion::CentimetersToInches));
    assert(unit_conversion("centimeter"@) == Some(UnitConversion::CentimetersToInches));
    assert(unit_conversion("centimeters"@) == Some(UnitConversion::CentimetersToInches));
}

/// Each word of the source unit of `MilesToKilometers` asks for it.
proof fn lemma_words_of_miles_to_kilometers()
    ensures
        forall|i: int|
            0 <= i < UnitConversion::MilesToKilometers.source_unit_words().len() ==> unit_conversion(
                #[trigger] UnitConversion::MilesToKilometers.source_unit_words()[i],
            ) == Some(UnitConversion::MilesToKilometers),
{
    reveal_strlit("ft");
    reveal_strlit("feet");
    reveal_strlit("m");
    reveal_strlit("meter");
    reveal_strlit("meters");
    reveal_strlit("in");
    reveal_strlit("inch");
    reveal_strlit("inches");
    reveal_strlit("cm");
    reveal_strlit("centimeter");
    reveal_strlit("centimeters");
    reveal_strlit("mi");
    reveal_strlit("mile");
    reveal_strlit("miles");
    assert("ft"@.len() == 2);
    assert("feet"@.len() == 4);
    assert("m"@.len() == 1);
    assert("meter"@.len() == 5);
    assert("meters"@.len() == 6);
    assert("in"@.len() == 2);
    assert("inch"@.len() == 4);
    assert("inches"@.len() == 6);
    assert("cm"@.len() == 2);
    assert("centimeter"@.len() == 10);
    assert("centimeters"@.len() == 11);
    assert("mi"@.len() == 2);
    assert("mile"@.len() == 4);
    assert("miles"@.len() == 5);
    assert("mi"@[0] != "ft"@[0]);
    assert("mi"@[0] != "in"@[0]);
    assert("mi"@[0] != "cm"@[0]);
    assert(unit_conversion("mi"@) == Some(UnitConversion::MilesToKilometers));
    assert("mile"@[0] != "feet"@[0]);
    assert("mile"@[0] != "inch"@[0]);
    assert(unit_conversion("mile"@) == Some(UnitConversion::MilesToKilometers));
    assert("miles"@[1] != "meter"@[1]);
    assert(unit_conversion("miles"@) == Some(UnitConversion::MilesToKilometers));
}

/// Each word of the source unit of `KilometersToMiles` asks for it.
proof fn lemma_words_of_kilometers_to_miles()
    ensures
        forall|i: int|
            0 <= i < UnitConversion::KilometersToMiles.source_unit_words().len() ==> unit_conversion(
                #[trigger] UnitConversion::KilometersToMiles.source_unit_words()[i],
            ) == Some(UnitConversion::KilometersToMiles),
{
    reveal_strlit("ft");
    reveal_strlit("feet");
    reveal_strlit("m");
    reveal_strlit("meter");
    reveal_strlit("meters");
    reveal_strlit("in");
    reveal_strlit("inch");
    reveal_strlit("inches");
    reveal_strlit("cm");
    reveal_strlit("centimeter");
    reveal_strlit("centimeters");
    reveal_strlit("mi");
    reveal_strlit("mile");
    reveal_strlit("miles");
    reveal_strlit("km");
    reveal_strlit("kilometer");
    reveal_strlit("kilometers");
    assert("ft"@.len() == 2);
    assert("feet"@.len() == 4);
    assert("m"@.len() == 1);
    assert("meter"@.len() == 5);
    assert("meters"@.len() == 6);
    assert("in"@.len() == 2);
    assert("inch"@.len() == 4);
    assert("inches"@.len() == 6);
    assert("cm"@.len() == 2);
    assert("centimeter"@.len() == 10);
    assert("centimeters"@.len() == 11);
    assert("mi"@.len() == 2);
    assert("mile"@.len() == 4);
    assert("miles"@.len() == 5);
    assert("km"@.len() == 2);
    assert("kilometer"@.len() == 9);
    assert("kilometers"@.len() == 10);
    assert("km"@[0] != "ft"@[0]);
    assert("km"@[0] != "in"@[0]);
    assert("km"@[0] != "cm"@[0]);
    assert("km"@[0] != "mi"@[0]);
    assert(unit_conversion("km"@) == Some(UnitConversion::KilometersToMiles));
    assert(unit_conversion("kilometer"@) == Some(UnitConversion::KilometersToMiles));
    assert("kilometers"@[0] != "centimeter"@[0]);
    assert(unit_conversion("kilometers"@) == Some(UnitConversion::KilometersToMiles));
}

/// Each word of the source unit of `PoundsToKilograms` asks for it.
proof fn lemma_words_of_pounds_to_kilograms()
    ensures
        forall|i: int|
            0 <= i < UnitConversion::PoundsToKilograms.source_unit_words().len() ==> unit_conversion(
                #[trigger] UnitConversion::PoundsToKilograms.source_unit_words()[i],
            ) == Some(UnitConversion::PoundsToKilograms),
{
    reveal_strlit("ft");
    reveal_strlit("feet");
    reveal_strlit("m");
    reveal_strlit("meter");
    reveal_strlit("meters");
    reveal_strlit("in");
    reveal_strlit("inch");
    reveal_strlit("inches");
    reveal_strlit("cm");
    reveal_strlit("centimeter");
    reveal_strlit("centimeters");
    reveal_strlit("mi");
    reveal_strlit("mile");
    reveal_strlit("miles");
    reveal_strlit("km");
    reveal_strlit("kilometer");
    reveal_strlit("kilometers");
    reveal_strlit("lb");
    reveal_strlit("lbs");
    reveal_strlit("pound");
    reveal_strlit("pounds");
    assert("ft"@.len() == 2);
    assert("feet"@.len() == 4);
    assert("m"@.len() == 1);
    assert("meter"@.len() == 5);
    assert("meters"@.len() == 6);
    assert("in"@.len() == 2);
    assert("inch"@.len() == 4);
    assert("inches"@.len() == 6);
    assert("cm"@.len() == 2);
    assert("centimeter"@.len() == 10);
    assert("centimeters"@.len() == 11);
    assert("mi"@.len() == 2);
    assert("mile"@.len() == 4);
    assert("miles"@.len() == 5);
    assert("km"@.len() == 2);
    assert("kilometer"@.len() == 9);
    assert("kilometers"@.len() == 10);
    assert("lb"@.len() == 2);
    assert("lbs"@.len() == 3);
    assert("pound"@.len() == 5);
    assert("pounds"@.len() == 6);
    assert("lb"@[0] != "ft"@[0]);
    assert("lb"@[0] != "in"@[0]);
    assert("lb"@[0] != "cm"@[0]);
    assert("lb"@[0] != "mi"@[0]);
    assert("lb"@[0] != "km"@[0]);
    assert(unit_conversion("lb"@) == Some(UnitConversion::PoundsToKilograms));
    assert(unit_conversion("lbs"@) == Some(UnitConversion::PoundsToKilograms));
    assert("pound"@[0] != "meter"@[0]);
    assert("pound"@[0] != "miles"@[0]);
    assert(unit_conversion("pound"@) == Some(UnitConversion::PoundsToKilograms));
    assert("pounds"@[0] != "meters"@[0]);
    assert("pounds"@[0] != "inches"@[0]);
    assert(unit_conversion("pounds"@) == Some(UnitConversion::PoundsToKilograms));
}

/// Each word of the source unit of `KilogramsToPounds` asks for it.
proof fn lemma_words_of_kilograms_to_pounds()
    ensures
        forall|i: int|
            0 <= i < UnitConversion::KilogramsToPounds.source_unit_words().len() ==> unit_conversion(
                #[trigger] UnitConversion::KilogramsToPounds.source_unit_words()[i],
            ) == Some(UnitConversion::KilogramsToPounds),
{
    reveal_strlit("ft");
    reveal_strlit("feet");
    reveal_strlit("m");
    reveal_strlit("meter");
    reveal_strlit("meters");
    reveal_strlit("in");
    reveal_strlit("inch");
    reveal_strlit("inches");
    reveal_strlit("cm");
    reveal_strlit("centimeter");
    reveal_strlit("centimeters");
    reveal_strlit("mi");
    reveal_strlit("mile");
    reveal_strlit("miles");
    reveal_strlit("km");
    reveal_strlit("kilometer");
    reveal_strlit("kilometers");
    reveal_strlit("lb");
    reveal_strlit("lbs");
    reveal_strlit("pound");
    reveal_strlit("pounds");
    reveal_strlit("kg");
    reveal_strlit("kilogram");
    reveal_strlit("kilograms");
    assert("ft"@.len() == 2);
    assert("feet"@.len() == 4);
    assert("m"@.len() == 1);
    assert("meter"@.len() == 5);
    assert("meters"@.len() == 6);
    assert("in"@.len() == 2);
    assert("inch"@.len() == 4);
    assert("inches"@.len() == 6);
    assert("cm"@.len() == 2);
    assert("centimeter"@.len() == 10);
    assert("centimeters"@.len() == 11);
    assert("mi"@.len() == 2);
    assert("mile"@.len() == 4);
    assert("miles"@.len() == 5);
    assert("km"@.len() == 2);
    assert("kilometer"@.len() == 9);
    assert("kilometers"@.len() == 10);
    assert("lb"@.len() == 2);
    assert("lbs"@.len() == 3);
    assert("pound"@.len() == 5);
    assert("pounds"@.len() == 6);
    assert("kg"@.len() == 2);
    assert("kilogram"@.len() == 8);
    assert("kilograms"@.len() == 9);
    assert("kg"@[0] != "ft"@[0]);
    assert("kg"@[0] != "in"@[0]);
    assert("kg"@[0] != "cm"@[0]);
    assert("kg"@[0] != "mi"@[0]);
    assert("kg"@[1] != "km"@[1]);
    assert("kg"@[0] != "lb"@[0]);
    assert(unit_conversion("kg"@) == Some(UnitConversion::KilogramsToPounds));
    assert(unit_conversion("kilogram"@) == Some(UnitConversion::KilogramsToPounds));
    assert("kilograms"@[4] != "kilometer"@[4]);
    assert(unit_conversion("kilograms"@) == Some(UnitConversion::KilogramsToPounds));
}

/// Each word of the source unit of `CelsiusToFahrenheit` asks for it.
proof fn lemma_words_of_celsius_to_fahrenheit()
    ensures
        forall|i: int|
            0 <= i < UnitConversion::CelsiusToFahrenheit.source_unit_words().len() ==> unit_conversion(
                #[trigger] UnitConversion::CelsiusToFahrenheit.source_unit_words()[i],
            ) == Some(UnitConversion::CelsiusToFahrenheit),
{
    reveal_strlit("ft");
    reveal_strlit("feet");
    reveal_strlit("m");
    reveal_strlit("meter");
    reveal_strlit("meters");
    reveal_strlit("in");
    reveal_strlit("inch");
    reveal_strlit("inches");
    reveal_strlit("cm");
    reveal_strlit("centimeter");
    reveal_strlit("centimeters");
    reveal_strlit("mi");
    reveal_strlit("mile");
    reveal_strlit("miles");
    reveal_strlit("km");
    reveal_strlit("kilometer");
    reveal_strlit("kilometers");
    reveal_strlit("lb");
    reveal_strlit("lbs");
    reveal_strlit("pound");
    reveal_strlit("pounds");
    reveal_strlit("kg");
    reveal_strlit("kilogram");
    reveal_strlit("kilograms");
    reveal_strlit("c");
    reveal_strlit("°c");
    reveal_strlit("celsius");
    assert("ft"@.len() == 2);
    assert("feet"@.len() == 4);
    assert("m"@.len() == 1);
    assert("meter"@.len() == 5);
    assert("meters"@.len() == 6);
    assert("in"@.len() == 2);
    assert("inch"@.len() == 4);
    assert("inches"@.len() == 6);
    assert("cm"@.len() == 2);
    assert("centimeter"@.len() == 10);
    assert("centimeters"@.len() == 11);
    assert("mi"@.len() == 2);
    assert("mile"@.len() == 4);
    assert("miles"@.len() == 5);
    assert("km"@.len() == 2);
    assert("kilometer"@.len() == 9);
    assert("kilometers"@.len() == 10);
    assert("lb"@.len() == 2);
    assert("lbs"@.len() == 3);
    assert("pound"@.len() == 5);
    assert("pounds"@.len() == 6);
    assert("kg"@.len() == 2);
    assert("kilogram"@.len() == 8);
    assert("kilograms"@.len() == 9);
    assert("c"@.len() == 1);
    assert("°c"@.len() == 2);
    assert("celsius"@.len() == 7);
    assert("c"@[0] != "m"@[0]);
    assert(unit_conversion("c"@) == Some(UnitConversion::CelsiusToFahrenheit));
    assert("°c"@[0] != "ft"@[0]);
    assert("°c"@[0] != "in"@[0]);
    assert("°c"@[0] != "cm"@[0]);
    assert("°c"@[0] != "mi"@[0]);
    assert("°c"@[0] != "km"@[0]);
    assert("°c"@[0] != "lb"@[0]);
    assert("°c"@[0] != "kg"@[0]);
    assert(unit_conversion("°c"@) == Some(UnitConversion::CelsiusToFahrenheit));
    assert(unit_conversion("celsius"@) == Some(UnitConversion::CelsiusToFahrenheit));
}

/// Each word of the source unit of `FahrenheitToCelsius` asks for it.
proof fn lemma_words_of_fahrenheit_to_celsius()
    ensures
        forall|i: int|
            0 <= i < UnitConversion::FahrenheitToCelsius.source_unit_words().len() ==> unit_conversion(
                #[trigger] UnitConversion::FahrenheitToCelsius.source_unit_words()[i],
            ) == Some(UnitConversion::FahrenheitToCelsius),
{
    reveal_strlit("ft");
    reveal_strlit("feet");
    reveal_strlit("m");
    reveal_strlit("meter");
    reveal_strlit("meters");
    reveal_strlit("in");
    reveal_strlit("inch");
    reveal_strlit("inches");
    reveal_strlit("cm");
    reveal_strlit("centimeter");
    reveal_strlit("centimeters");
    reveal_strlit("mi");
    reveal_strlit("mile");
    reveal_strlit("miles");
    reveal_strlit("km");
    reveal_strlit("kilometer");
    reveal_strlit("kilometers");
    reveal_strlit("lb");
    reveal_strlit("lbs");
    reveal_strlit("pound");
    reveal_strlit("pounds");
    reveal_strlit("kg");
    reveal_strlit("kilogram");
    reveal_strlit("kilograms");
    reveal_strlit("c");
    reveal_strlit("°c");
    reveal_strlit("celsius");
    reveal_strlit("f");
    reveal_strlit("°f");
    reveal_strlit("fahrenheit");
    assert("ft"@.len() == 2);
    assert("feet"@.len() == 4);
    assert("m"@.len() == 1);
    assert("meter"@.len() == 5);
    assert("meters"@.len() == 6);
    assert("in"@.len() == 2);
    assert("inch"@.len() == 4);
    assert("inches"@.len() == 6);
    assert("cm"@.len() == 2);
    assert("centimeter"@.len() == 10);
    assert("centimeters"@.len() == 11);
    assert("mi"@.len() == 2);
    assert("mile"@.len() == 4);
    assert("miles"@.len() == 5);
    assert("km"@.len() == 2);
    assert("kilometer"@.len() == 9);
    assert("kilometers"@.len() == 10);
    assert("lb"@.len() == 2);
    assert("lbs"@.len() == 3);
    assert("pound"@.len() == 5);
    assert("pounds"@.len() == 6);
    assert("kg"@.len() == 2);
    assert("kilogram"@.len() == 8);
    assert("kilograms"@.len() == 9);
    assert("c"@.len() == 1);
    assert("°c"@.len() == 2);
    assert("celsius"@.len() == 7);
    assert("f"@.len() == 1);
    assert("°f"@.len() == 2);
    assert("fahrenheit"@.len() == 10);
    assert("f"@[0] != "m"@[0]);
    assert("f"@[0] != "c"@[0]);
    assert(unit_conversion("f"@) == Some(UnitConversion::FahrenheitToCelsius));
    assert("°f"@[0] != "ft"@[0]);
    assert("°f"@[0] != "in"@[0]);
    assert("°f"@[0] != "cm"@[0]);
    assert("°f"@[0] != "mi"@[0]);
    assert("°f"@[0] != "km"@[0]);
    assert("°f"@[0] != "lb"@[0]);
    assert("°f"@[0] != "kg"@[0]);
    assert("°f"@[1] != "°c"@[1]);
    assert(unit_conversion("°f"@) == Some(UnitConversion::FahrenheitToCelsius));
    assert("fahrenheit"@[0] != "centimeter"@[0]);
    assert("fahrenheit"@[0] != "kilometers"@[0]);
    assert(unit_conversion("fahrenheit"@) == Some(UnitConversion::FahrenheitToCelsius));
}

/// Each word of the source unit of `PixelsToRem` asks for it.
proof fn lemma_words_of_pixels_to_rem()
    ensures
        forall|i: int|
            0 <= i < UnitConversion::PixelsToRem.source_unit_words().len() ==> unit_conversion(
                #[trigger] UnitConversion::PixelsToRem.source_unit_words()[i],
            ) == Some(UnitConversion::PixelsToRem),
{
    reveal_strlit("ft");
    reveal_strlit("feet");
    reveal_strlit("m");
    reveal_strlit("meter");
    reveal_strlit("meters");
    reveal_strlit("in");
    reveal_strlit("inch");
    reveal_strlit("inches");
    reveal_strlit("cm");
    reveal_strlit("centimeter");
    reveal_strlit("centimeters");
    reveal_strlit("mi");
    reveal_strlit("mile");
    reveal_strlit("miles");
    reveal_strlit("km");
    reveal_strlit("kilometer");
    reveal_strlit("kilometers");
    reveal_strlit("lb");
    reveal_strlit("lbs");
    reveal_strlit("pound");
    reveal_strlit("pounds");
    reveal_strlit("kg");
    reveal_strlit("kilogram");
    reveal_strlit("kilograms");
    reveal_strlit("c");
    reveal_strlit("°c");
    reveal_strlit("celsius");
    reveal_strlit("f");
    reveal_strlit("°f");
    reveal_strlit("fahrenheit");
    reveal_strlit("px");
    assert("ft"@.len() == 2);
    assert("feet"@.len() == 4);
    assert("m"@.len() == 1);
    assert("meter"@.len() == 5);
    assert("meters"@.len() == 6);
    assert("in"@.len() == 2);
    assert("inch"@.len() == 4);
    assert("inches"@.len() == 6);
    assert("cm"@.len() == 2);
    assert("centimeter"@.len() == 10);
    assert("centimeters"@.len() == 11);
    assert("mi"@.len() == 2);
    assert("mile"@.len() == 4);
    assert("miles"@.len() == 5);
    assert("km"@.len() == 2);
    assert("kilometer"@.len() == 9);
    assert("kilometers"@.len() == 10);
    assert("lb"@.len() == 2);
    assert("lbs"@.len() == 3);
    assert("pound"@.len() == 5);
    assert("pounds"@.len() == 6);
    assert("kg"@.len() == 2);
    assert("kilogram"@.len() == 8);
    assert("kilograms"@.len() == 9);
    assert("c"@.len() == 1);
    assert("°c"@.len() == 2);
    assert("celsius"@.len() == 7);
    assert("f"@.len() == 1);
    assert("°f"@.len() == 2);
    assert("fahrenheit"@.len() == 10);
    assert("px"@.len() == 2);
    assert("px"@[0] != "ft"@[0]);
    assert("px"@[0] != "in"@[0]);
    assert("px"@[0] != "cm"@[0]);
    assert("px"@[0] != "mi"@[0]);
    assert("px"@[0] != "km"@[0]);
    assert("px"@[0] != "lb"@[0]);
    assert("px"@[0] != "kg"@[0]);
    assert("px"@[0] != "°c"@[0]);
    assert("px"@[0] != "°f"@[0]);
    assert(unit_conversion("px"@) == Some(UnitConversion::PixelsToRem));
}

/// Each word of the source unit of `RemToPixels` asks for it.
proof fn lemma_words_of_rem_to_pixels()
    ensures
        forall|i: int|
            0 <= i < UnitConversion::RemToPixels.source_unit_words().len() ==> unit_conversion(
                #[trigger] UnitConversion::RemToPixels.source_unit_words()[i],
            ) == Some(UnitConversion::RemToPixels),
{
    reveal_strlit("ft");
    reveal_strlit("feet");
    reveal_strlit("m");
    reveal_strlit("meter");
    reveal_strlit("meters");
    reveal_strlit("in");
    reveal_strlit("inch");
    reveal_strlit("inches");
    reveal_strlit("cm");
    reveal_strlit("centimeter");
    reveal_strlit("centimeters");
    reveal_strlit("mi");
    reveal_strlit("mile");
    reveal_strlit("miles");
    reveal_strlit("km");
    reveal_strlit("kilometer");
    reveal_strlit("kilometers");
    reveal_strlit("lb");
    reveal_strlit("lbs");
    reveal_strlit("pound");
    reveal_strlit("pounds");
    reveal_strlit("kg");
    reveal_strlit("kilogram");
    reveal_strlit("kilograms");
    reveal_strlit("c");
    reveal_strlit("°c");
    reveal_strlit("celsius");
    reveal_strlit("f");
    reveal_strlit("°f");
    reveal_strlit("fahrenheit");
    reveal_strlit("px");
    reveal_strlit("rem");
    assert("ft"@.len() == 2);
    assert("feet"@.len() == 4);
    assert("m"@.len() == 1);
    assert("meter"@.len() == 5);
    assert("meters"@.len() == 6);
    assert("in"@.len() == 2);
    assert("inch"@.len() == 4);
    assert("inches"@.len() == 6);
    assert("cm"@.len() == 2);
    assert("centimeter"@.len() == 10);
    assert("centimeters"@.len() == 11);
    assert("mi"@.len() == 2);
    assert("mile"@.len() == 4);
    assert("miles"@.len() == 5);
    assert("km"@.len() == 2);
    assert("kilometer"@.len() == 9);
    assert("kilometers"@.len() == 10);
    assert("lb"@.len() == 2);
    assert("lbs"@.len() == 3);
    assert("pound"@.len() == 5);
    assert("pounds"@.len() == 6);
    assert("kg"@.len() == 2);
    assert("kilogram"@.len() == 8);
    assert("kilograms"@.len() == 9);
    assert("c"@.len() == 1);
    assert("°c"@.len() == 2);
    assert("celsius"@.len() == 7);
    assert("f"@.len() == 1);
    assert("°f"@.len() == 2);
    assert("fahrenheit"@.len() == 10);
    assert("px"@.len() == 2);
    assert("rem"@.len() == 3);
    assert("rem"@[0] != "lbs"@[0]);
    assert(unit_conversion("rem"@) == Some(UnitConversion::RemToPixels));
}

/// A unit word asks for the conversion from the unit it names to the other
/// unit of its pair: each word of a conversion's source unit asks for that
/// conversion, and the words of its target unit ask for the conversion back.
pub proof fn law_unit_words_convert_from_their_unit(c: UnitConversion, i: int)
    requires
        0 <= i < c.source_unit_words().len(),
    ensures
        unit_conversion(c.source_unit_words()[i]) == Some(c),
        c.inverse() != c,
        c.inverse().inverse() == c,
{
    match c {
        UnitConversion::FeetToMeters => lemma_words_of_feet_to_meters(),
        UnitConversion::MetersToFeet => lemma_words_of_meters_to_feet(),
        UnitConversion::InchesToCentimeters => lemma_words_of_inches_to_centimeters(),
        UnitConversion::CentimetersToInches => lemma_words_of_centimeters_to_inches(),
        UnitConversion::MilesToKilometers => lemma_words_of_miles_to_kilometers(),
        UnitConversion::KilometersToMiles => lemma_words_of_kilometers_to_miles(),
        UnitConversion::PoundsToKilograms => lemma_words_of_pounds_to_kilograms(),
        UnitConversion::KilogramsToPounds => lemma_words_of_kilograms_to_pounds(),
        UnitConversion::CelsiusToFahrenheit => lemma_words_of_celsius_to_fahrenheit(),
        UnitConversion::FahrenheitToCelsius => lemma_words_of_fahrenheit_to_celsius(),
        UnitConversion::PixelsToRem => lemma_words_of_pixels_to_rem(),
        UnitConversion::RemToPixels => lemma_words_of_rem_to_pixels(),
    }
}

impl UnitConversion {
    /// The name of the unit converted to.
    pub open spec fn spec_target_unit(self) -> Seq<char> {
        match self {
            UnitConversion::FeetToMeters => "meters (m)"@,
            UnitConversion::MetersToFeet => "feet (ft)"@,
            UnitConversion::InchesToCentimeters => "centimeters (cm)"@,
            UnitConversion::CentimetersToInches => "inches (in)"@,
            UnitConversion::MilesToKilometers => "kilometers (km)"@,
            UnitConversion::KilometersToMiles => "miles (mi)"@,
            UnitConversion::PoundsToKilograms => "kilograms (kg)"@,
            UnitConversion::KilogramsToPounds => "pounds (lbs)"@,
            UnitConversion::CelsiusToFahrenheit => "Fahrenheit (°F)"@,
            UnitConversion::FahrenheitToCelsius => "Celsius (°C)"@,
            UnitConversion::PixelsToRem => "rem (16px base)"@,
            UnitConversion::RemToPixels => "pixels (px)"@,
        }
    }

    /// The name of the unit converted to.
    pub fn target_unit(self) -> (r: &'static str)
        ensures
            r@ == self.spec_target_unit(),
    {
        match self {
            UnitConversion::FeetToMeters => "meters (m)",
            UnitConversion::MetersToFeet => "feet (ft)",
            UnitConversion::InchesToCentimeters => "centimeters (cm)",
            UnitConversion::CentimetersToInches => "inches (in)",
            UnitConversion::MilesToKilometers => "kilometers (km)",
            UnitConversion::KilometersToMiles => "miles (mi)",
            UnitConversion::PoundsToKilograms => "kilograms (kg)",
            UnitConversion::KilogramsToPounds => "pounds (lbs)",
            UnitConversion::CelsiusToFahrenheit => "Fahrenheit (°F)",
            UnitConversion::FahrenheitToCelsius => "Celsius (°C)",
            UnitConversion::PixelsToRem => "rem (16px base)",
            UnitConversion::RemToPixels => "pixels (px)",
        }
    }
}

fn unit_conversion_exec(unit: &str) -> (r: Option<UnitConversion>)
    ensures
        r == unit_conversion(unit@),
{
    if str_eq(unit, "ft") || str_eq(unit, "feet") {
        Some(UnitConversion::FeetToMeters)
    } else if str_eq(unit, "m") || str_eq(unit, "meter") || str_eq(unit, "meters") {
        Some(UnitConversion::MetersToFeet)
    } else if str_eq(unit, "in") || str_eq(unit, "inch") || str_eq(unit, "inches") {
        Some(UnitConversion::InchesToCentimeters)
    } else if str_eq(unit, "cm") || str_eq(unit, "centimeter") || str_eq(unit, "centimeters") {
        Some(UnitConversion::CentimetersToInches)
    } else if str_eq(unit, "mi") || str_eq(unit, "mile") || str_eq(unit, "miles") {
        Some(UnitConversion::MilesToKilometers)
    } else if str_eq(unit, "km") || str_eq(unit, "kilometer") || str_eq(unit, "kilometers") {
        Some(UnitConversion::KilometersToMiles)
    } else if str_eq(unit, "lb") || str_eq(unit, "lbs") || str_eq(unit, "pound") || str_eq(
        unit,
        "pounds",
    ) {
        Some(UnitConversion::PoundsToKilograms)
    } else if str_eq(unit, "kg") || str_eq(unit, "kilogram") || str_eq(unit, "kilograms") {
        Some(UnitConversion::KilogramsToPounds)
    } else if str_eq(unit, "c") || str_eq(unit, "°c") || str_eq(unit, "celsius") {
        Some(UnitConversion::CelsiusToFahrenheit)
    } else if str_eq(unit, "f") || str_eq(unit, "°f") || str_eq(unit, "fahrenheit") {
        Some(UnitConversion::FahrenheitToCelsius)
    } else if str_eq(unit, "px") {
        Some(UnitConversion::PixelsToRem)
    } else if str_eq(unit, "rem") {
        Some(UnitConversion::RemToPixels)
    } else {
        None
    }
}

/// What a query asks of the converter.
pub enum ConversionPlan {
    /// Not a conversion.
    Nothing,
    /// A finished result item (a calculation).
    Item(SearchResultItem),
    /// A unit conversion of the number written as `number`, from `unit`.
    Unit { number: String, unit: String, conversion: UnitConversion },
}

/// What a query asks of the converter, as text.
pub enum ConversionView {
    Nothing,
    Item(ItemView),
    Unit { number: Seq<char>, unit: Seq<char>, conversion: UnitConversion },
}

impl View for ConversionPlan {
    type V = ConversionView;

    open spec fn view(&self) -> ConversionView {
        match self {
            ConversionPlan::Nothing => ConversionView::Nothing,
            ConversionPlan::Item(i) => ConversionView::Item(i@),
            ConversionPlan::Unit { number, unit, conversion } => ConversionView::Unit {
                number: number@,
                unit: unit@,
                conversion: *conversion,
            },
        }
    }
}

/// The trimmed query in lower case, as the converter reads it.
pub open spec fn conversion_text(query: Seq<char>) -> Seq<char> {
    to_lower(trim(query))
}

/// The expression of a query that asks for a calculation: what follows the
/// `=` of the converter's text, trimmed, when it is not empty.
pub open spec fn calculation_text(query: Seq<char>) -> Option<Seq<char>> {
    let q = conversion_text(query);
    if q.len() > 0 && q[0] == '=' && trim(q.drop_first()).len() > 0 {
        Some(trim(q.drop_first()))
    } else {
        None
    }
}

/// A query starting with `=` is a calculation of what follows (trimmed);
/// a query of two words whose second names a known unit is a unit
/// conversion of the first; anything else is not a conversion.
pub open spec fn spec_plan_conversion(query: Seq<char>) -> ConversionView {
    let q = conversion_text(query);
    if q.len() > 0 && q[0] == '=' {
        let expr = trim(q.drop_first());
        if expr.len() == 0 {
            ConversionView::Item(enter_expression_item())
        } else {
            ConversionView::Item(calculation_item(expr))
        }
    } else {
        let parts = words(q);
        if parts.len() == 2 && unit_conversion(parts[1]) is Some {
            ConversionView::Unit {
                number: parts[0],
                unit: parts[1],
                conversion: unit_conversion(parts[1])->0,
            }
        } else {
            ConversionView::Nothing
        }
    }
}

/// Reads a query as the converter does (see `spec_plan_conversion`); the
/// arithmetic of unit conversions is left to the caller. A calculation whose
/// expression is not `platform_independent` gives the item of whatever
/// evalexpr answered.
pub fn plan_conversion(query: &str) -> (r: ConversionPlan)
    ensures
        (calculation_text(query@) matches Some(e) ==> platform_independent(e)) ==> r@
            == spec_plan_conversion(query@),
        calculation_text(query@) matches Some(e) ==> r@ matches ConversionView::Item(x)
            && is_math_item(x) && (!evaluation_is_safe(e) ==> x == math_item(None)),
{
    let t = trimmed_chars(query);
    let ts = string_from_chars(&t);
    let lower = str_to_lowercase(ts.as_str());
    let q = chars_of(lower.as_str());
    if q.len() > 0 && q[0] == '=' {
        let (a, b) = trim_bounds(&q, 1, q.len());
        assert(q@.subrange(1, q@.len() as int) == q@.drop_first());
        if a == b {
            return ConversionPlan::Item(
                SearchResultItem::new(
                    string_of("math_error"),
                    string_of("Enter a mathematical expression"),
                    string_of("Example: = 5 * 10"),
                    string_of("conversion"),
                    String::new(),
                ),
            );
        }
        let expr = string_from_range(&q, a, b);
        return ConversionPlan::Item(evaluate_expression(expr.as_str()));
    }
    assert(q@.skip(0) == q@);
    match next_word(&q, 0) {
        None => ConversionPlan::Nothing,
        Some((a0, b0)) => match next_word(&q, b0) {
            None => ConversionPlan::Nothing,
            Some((a1, b1)) => match next_word(&q, b1) {
                Some(_) => ConversionPlan::Nothing,
                None => {
                    let unit = string_from_range(&q, a1, b1);
                    match unit_conversion_exec(unit.as_str()) {
                        None => ConversionPlan::Nothing,
                        Some(c) => ConversionPlan::Unit {
                            number: string_from_range(&q, a0, b0),
                            unit,
                            conversion: c,
                        },
                    }
                },
            },
        },
    }
}

} // verus!
