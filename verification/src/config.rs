//! Configuration values for the numeral renderer: the policy for the
//! character "两" (an alternate form of "two"), the policy for eliding the
//! leading "一" of "一十" ("ten"), and the choice of big-unit alphabet.
use vstd::prelude::*;

verus! {

/// How the character "两" may replace "二" in the rendered numeral.
#[derive(Clone, Copy, PartialEq, Eq, Debug, Structural)]
pub enum LiangOption {
    /// Never substitute "两".
    Disable,
    /// Substitution is allowed wherever the structural rule permits,
    /// including a trailing bare units-place "两".
    WithUnit,
    /// Substitute during rendering, but if the final character of the result
    /// is "两" it is rewritten to "二", so a pure count never ends in "两".
    JustNumber,
}

/// Whether the leading "一" of "一十" ("ten") is written out or elided.
#[derive(Clone, Copy, PartialEq, Eq, Debug, Structural)]
pub enum YishiOption {
    /// Always write "一十三", "一十四", and so on.
    Always,
    /// Elide the "一" only at the very head of the number.
    ExceptHead,
    /// Elide the "一" at the head of the number and right after a "零".
    Avoid,
}

/// The two stylistic policies a caller hands to the formatter.
#[derive(Clone, Copy, PartialEq, Eq, Debug, Structural)]
pub struct Config {
    pub liang: LiangOption,
    pub yishi: YishiOption,
}

/// Which big-unit alphabet the formatter uses.
#[derive(Clone, Copy, PartialEq, Eq, Debug, Structural)]
pub enum AttMethod {
    /// The legacy 18-name alphabet (亿亿 is 兆, 兆兆 is 京, and so on).
    Old,
    /// The modern 2-name alphabet, whose largest name is 亿.
    Std,
}

} // verus!
