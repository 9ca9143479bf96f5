use vstd::prelude::*;

use crate::decimal::{numeral, value_eq, value_gt, value_lt, Decimal, Order};
use crate::plan::Site;

verus! {

/// What the page inspector saw at a site's selector: whether an element
/// matched, and its text (empty when there is none).
#[derive(Clone, Debug)]
pub struct Observation {
    pub present: bool,
    pub text: String,
}

/// A configuration that the rule cannot be applied to.
#[derive(Clone, Copy, Debug, PartialEq, Eq, Structural)]
pub enum RuleError {
    /// The rule kind is none of the known ones.
    UnknownRule,
    /// A numeric rule met text that is not a number.
    NotANumber,
}

/// Presence (`.0 == true`) or absence (`.0 == false`) of the element
/// (`.1 == false`) or of the expected text in it (`.1 == true`).
pub struct PresenceOf(pub bool, pub bool);

/// Comparison of the element's number with the expected value; the
/// comparator is one of `>`, `>=`, `<`, `<=`, `==`.
pub struct NumberChange(pub String);

#[derive(Clone, Copy, Debug, PartialEq, Eq, Structural)]
pub enum RuleKind {
    AbsenceOfElement,
    AbsenceOfText,
    PresenceOfElement,
    PresenceOfText,
    MoreThan,
    MoreOrEqualThan,
    LessThan,
    LessOrEqualThan,
    EqualThan,
}

/// Unicode's White_Space characters, by which `str::trim` goes.
pub open spec fn is_white_space(c: char) -> bool {
    ('\u{9}' <= c && c <= '\u{d}') || c == ' ' || c == '\u{85}' || c == '\u{a0}' || c == '\u{1680}'
        || ('\u{2000}' <= c && c <= '\u{200a}') || c == '\u{2028}' || c == '\u{2029}'
        || c == '\u{202f}' || c == '\u{205f}' || c == '\u{3000}'
}

/// `t` is `s` without its leading and trailing white space.
pub open spec fn is_trim_of(s: Seq<char>, t: Seq<char>) -> bool {
    exists|i: int, j: int|
        {
            &&& 0 <= i <= j <= s.len()
            &&& t == #[trigger] s.subrange(i, j)
            &&& forall|k: int| 0 <= k < i ==> is_white_space(#[trigger] s[k])
            &&& forall|k: int| j <= k < s.len() ==> is_white_space(#[trigger] s[k])
            &&& t.len() > 0 ==> !is_white_space(t[0]) && !is_white_space(t[t.len() - 1])
        }
}

/// Relies on str::trim: the text without leading and trailing characters
/// of Unicode's White_Space property.
#[verifier::external_body]
fn trim_text(s: &str) -> (r: String)
    ensures
        is_trim_of(s@, r@),
{
    s.trim().to_string()
}

fn text_is(s: &String, lit: &str) -> (r: bool)
    ensures
        r == (s@ == lit@),
{
    let owned = lit.to_owned();
    *s == owned
}

/// The element shows exactly the expected text.
pub open spec fn text_seen(expected: Option<String>, seen: Observation) -> bool {
    &&& expected is Some
    &&& seen.present
    &&& seen.text@ == expected->Some_0@
}

pub open spec fn presence_holds(
    presence: bool,
    of_text: bool,
    expected: Option<String>,
    seen: Observation,
) -> bool {
    let found = if of_text {
        text_seen(expected, seen)
    } else {
        seen.present
    };
    if presence {
        found
    } else {
        !found
    }
}

/// `a <op> b` for the comparator `op`; an unknown comparator compares for equality.
pub open spec fn comparison_holds(op: Seq<char>, a: (int, nat), b: (int, nat)) -> bool {
    if op == ">"@ {
        value_gt(a, b)
    } else if op == ">="@ {
        value_gt(a, b) || value_eq(a, b)
    } else if op == "<"@ {
        value_lt(a, b)
    } else if op == "<="@ {
        value_lt(a, b) || value_eq(a, b)
    } else {
        value_eq(a, b)
    }
}

pub open spec fn number_outcome(op: Seq<char>, expected: Option<Decimal>, seen: Observation) -> Result<
    bool,
    RuleError,
> {
    if expected is None || !seen.present {
        Ok(false)
    } else {
        match numeral(seen.text@) {
            None => Err(RuleError::NotANumber),
            Some(v) => Ok(comparison_holds(op, v, expected->Some_0@)),
        }
    }
}

impl RuleKind {
    /// The rule kind that a plan names by `s`.
    pub open spec fn from_text(s: Seq<char>) -> Option<RuleKind> {
        if s == "absence of element"@ {
            Some(RuleKind::AbsenceOfElement)
        } else if s == "absence of text"@ {
            Some(RuleKind::AbsenceOfText)
        } else if s == "presence of element"@ {
            Some(RuleKind::PresenceOfElement)
        } else if s == "presence of text"@ {
            Some(RuleKind::PresenceOfText)
        } else if s == ">"@ {
            Some(RuleKind::MoreThan)
        } else if s == ">="@ {
            Some(RuleKind::MoreOrEqualThan)
        } else if s == "<"@ {
            Some(RuleKind::LessThan)
        } else if s == "<="@ {
            Some(RuleKind::LessOrEqualThan)
        } else if s == "=="@ {
            Some(RuleKind::EqualThan)
        } else {
            None
        }
    }

    /// The comparator of a numeric kind, as the plan writes it.
    pub open spec fn comparator(self) -> Seq<char> {
        match self {
            RuleKind::MoreThan => ">"@,
            RuleKind::MoreOrEqualThan => ">="@,
            RuleKind::LessThan => "<"@,
            RuleKind::LessOrEqualThan => "<="@,
            _ => "=="@,
        }
    }

    /// Whether the rule holds for `site` given what was `seen`.
    pub open spec fn outcome(self, site: Site, seen: Observation) -> Result<bool, RuleError> {
        match self {
            RuleKind::AbsenceOfElement => Ok(presence_holds(false, false, site.text, seen)),
            RuleKind::AbsenceOfText => Ok(presence_holds(false, true, site.text, seen)),
            RuleKind::PresenceOfElement => Ok(presence_holds(true, false, site.text, seen)),
            RuleKind::PresenceOfText => Ok(presence_holds(true, true, site.text, seen)),
            _ => number_outcome(self.comparator(), site.value, seen),
        }
    }

    pub fn from_str(s: &str) -> (r: Option<RuleKind>)
        ensures
            r == RuleKind::from_text(s@),
    {
        let t = s.to_owned();
        if text_is(&t, "absence of element") {
            Some(RuleKind::AbsenceOfElement)
        } else if text_is(&t, "absence of text") {
            Some(RuleKind::AbsenceOfText)
        } else if text_is(&t, "presence of element") {
            Some(RuleKind::PresenceOfElement)
        } else if text_is(&t, "presence of text") {
            Some(RuleKind::PresenceOfText)
        } else if text_is(&t, ">") {
            Some(RuleKind::MoreThan)
        } else if text_is(&t, ">=") {
            Some(RuleKind::MoreOrEqualThan)
        } else if text_is(&t, "<") {
            Some(RuleKind::LessThan)
        } else if text_is(&t, "<=") {
            Some(RuleKind::LessOrEqualThan)
        } else if text_is(&t, "==") {
            Some(RuleKind::EqualThan)
        } else {
            None
        }
    }

    pub fn evaluate(&self, site: &Site, seen: &Observation) -> (r: Result<bool, RuleError>)
        ensures
            r == self.outcome(*site, *seen),
    {
        match self {
            RuleKind::AbsenceOfElement => Ok(PresenceOf(false, false).evaluate(site, seen)),
            RuleKind::AbsenceOfText => Ok(PresenceOf(false, true).evaluate(site, seen)),
            RuleKind::PresenceOfElement => Ok(PresenceOf(true, false).evaluate(site, seen)),
            RuleKind::PresenceOfText => Ok(PresenceOf(true, true).evaluate(site, seen)),
            RuleKind::MoreThan => NumberChange(">".to_owned()).evaluate(site, seen),
            RuleKind::MoreOrEqualThan => NumberChange(">=".to_owned()).evaluate(site, seen),
            RuleKind::LessThan => NumberChange("<".to_owned()).evaluate(site, seen),
            RuleKind::LessOrEqualThan => NumberChange("<=".to_owned()).evaluate(site, seen),
            RuleKind::EqualThan => NumberChange("==".to_owned()).evaluate(site, seen),
        }
    }
}

impl PresenceOf {
    pub fn evaluate(&self, site: &Site, seen: &Observation) -> (r: bool)
        ensures
            r == presence_holds(self.0, self.1, site.text, *seen),
    {
        let found = if self.1 {
            match &site.text {
                Some(expected) => seen.present && seen.text == *expected,
                None => false,
            }
        } else {
            seen.present
        };
        if self.0 {
            found
        } else {
            !found
        }
    }
}

impl NumberChange {
    pub fn evaluate(&self, site: &Site, seen: &Observation) -> (r: Result<bool, RuleError>)
        ensures
            r == number_outcome(self.0@, site.value, *seen),
    {
        let expected = match &site.value {
            Some(v) => v,
            None => {
                return Ok(false);
            },
        };
        if !seen.present {
            return Ok(false);
        }
        let actual = match get_element_value(seen.text.as_str()) {
            Ok(v) => v,
            Err(e) => {
                return Err(e);
            },
        };
        let order = actual.compare(expected);
        let op = &self.0;
        if text_is(op, ">") {
            Ok(order == Order::Greater)
        } else if text_is(op, ">=") {
            Ok(order == Order::Greater || order == Order::Equal)
        } else if text_is(op, "<") {
            Ok(order == Order::Less)
        } else if text_is(op, "<=") {
            Ok(order == Order::Less || order == Order::Equal)
        } else {
            Ok(order == Order::Equal)
        }
    }
}

/// The text of an element whose child nodes carry `children` as their
/// values: the first one, trimmed, or empty when there is none.
pub fn get_element_text(children: &Vec<String>) -> (r: String)
    ensures
        children.len() > 0 ==> is_trim_of(children[0]@, r@),
        children.len() == 0 ==> r@ == Seq::<char>::empty(),
{
    if children.len() > 0 {
        trim_text(children[0].as_str())
    } else {
        String::new()
    }
}

/// The number an element's text shows.
pub fn get_element_value(text: &str) -> (r: Result<Decimal, RuleError>)
    ensures
        match numeral(text@) {
            Some(v) => (r matches Ok(d) && d@ == v),
            None => r == Err::<Decimal, RuleError>(RuleError::NotANumber),
        },
{
    match Decimal::parse(text) {
        Some(d) => Ok(d),
        None => Err(RuleError::NotANumber),
    }
}

} // verus!
