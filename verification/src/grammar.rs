//! The grammar table: every recognized layout, its pattern, and which capture
//! group plays which part.
//!
//! A layout is a family (which parts are written) together with the place of
//! the hemisphere letter. Each layout has a one-sided pattern, for a single
//! angle, and a two-sided pattern, for a latitude followed by a longitude.
//! The patterns are matched by the `regex` crate; what they match is not
//! modelled here, only named.

use vstd::prelude::*;

verus! {

// In the patterns: \x{B0} is the degree sign; minutes may be marked by an
// apostrophe, U+2019, U+2032, U+2018 or U+201B; seconds by a double quote,
// U+2033, U+201D or U+201C.
// One-sided patterns
/// `40° 26′ 46″ N`
pub const RE_DMS_NSEW: &'static str =
    r#"^(-?\d{1,3})(?:\x{B0}\s*|\s+)(\d{1,2})(?:['\x{2019}\x{2032}\x{2018}\x{201B}]\s*|\s+)(\d{1,2}(?:[.,]\d+)?)["\x{2033}\x{201D}\x{201C}]?\s*(N|S|E|W)$"#;

/// `N 40° 26′ 46″`
pub const RE_NSEW_DMS: &'static str =
    r#"^(N|S|E|W)\s*(-?\d{1,3})(?:\x{B0}\s*|\s+)(\d{1,2})(?:['\x{2019}\x{2032}\x{2018}\x{201B}]\s*|\s+)(\d{1,2}(?:[.,]\d+)?)["\x{2033}\x{201D}\x{201C}]?$"#;

/// `40° 26′ 46″`
pub const RE_DMS: &'static str =
    r#"^(-?\d{1,3})(?:\x{B0}\s*|\s+)(\d{1,2})(?:['\x{2019}\x{2032}\x{2018}\x{201B}]\s*|\s+)(\d{1,2}(?:[.,]\d+)?)["\x{2033}\x{201D}\x{201C}]?\s*$"#;

/// `40° 26.767' N`
pub const RE_DM_NSEW: &'static str =
    r#"^(-?\d{1,3})(?:\x{B0}\s*|\s+)(\d{1,2}(?:[.,]\d+)?)['\x{2019}\x{2032}\x{2018}\x{201B}]?\s*(N|S|E|W)$"#;

/// `N 40° 26.767'`
pub const RE_NSEW_DM: &'static str =
    r#"^(N|S|E|W)\s*(-?\d{1,3})(?:\x{B0}\s*|\s+)(\d{1,2}(?:[.,]\d+)?)['\x{2019}\x{2032}\x{2018}\x{201B}]?$"#;

/// `40° 26.767'`
pub const RE_DM: &'static str =
    r#"^(-?\d{1,3})(?:\x{B0}\s*|\s+)(\d{1,2}(?:[.,]\d+)?)['\x{2019}\x{2032}\x{2018}\x{201B}]?$"#;

/// `N 40.446°`
pub const RE_NSEW_D: &'static str = r#"^(N|S|E|W)\s*(-?\d{1,3}(?:[.,]\d+)?)\x{B0}?$"#;

/// `40.446° N`
pub const RE_D_NSEW: &'static str = r#"^(-?\d{1,3}(?:[.,]\d+)?)\x{B0}?\s*(N|S|E|W)$"#;

/// `40.446°`
pub const RE_D: &'static str = r#"^(-?\d{1,3}(?:[.,]\d+)?)\x{B0}?$"#;

// Two-sided patterns. Between the two coordinates a comma or a semicolon may
// stand, with or without spaces, or spaces alone, or nothing where the text
// cannot be read in two ways.
/// `40° 26′ 46″ N 79° 58′ 56″ W`
pub const RE_DMS_NS_DMS_EW: &'static str =
    r#"^(-?\d{1,2})(?:\x{B0}\s*|\s+)(\d{1,2})(?:['\x{2019}\x{2032}\x{2018}\x{201B}]\s*|\s+)(\d{1,2}(?:[.,]\d+)?)["\x{2033}\x{201D}\x{201C}]?\s*(N|S)\s*[,;]?\s*(-?\d{1,3})(?:\x{B0}\s*|\s+)(\d{1,2})(?:['\x{2019}\x{2032}\x{2018}\x{201B}]\s*|\s+)(\d{1,2}(?:[.,]\d+)?)["\x{2033}\x{201D}\x{201C}]?\s*(E|W)$"#;

/// `N 40° 26′ 46″ W 79° 58′ 56″`
pub const RE_NS_DMS_EW_DMS: &'static str =
    r#"^(N|S)\s*(-?\d{1,2})(?:\x{B0}\s*|\s+)(\d{1,2})(?:['\x{2019}\x{2032}\x{2018}\x{201B}]\s*|\s+)(\d{1,2}(?:[.,]\d+)?)["\x{2033}\x{201D}\x{201C}]?\s*[,;]?\s*(E|W)\s*(-?\d{1,3})(?:\x{B0}\s*|\s+)(\d{1,2})(?:['\x{2019}\x{2032}\x{2018}\x{201B}]\s*|\s+)(\d{1,2}(?:[.,]\d+)?)["\x{2033}\x{201D}\x{201C}]?$"#;

/// `40° 26′ 46″ 79° 58′ 56″`
pub const RE_DMS_DMS: &'static str =
    r#"^(-?\d{1,2})(?:\x{B0}\s*|\s+)(\d{1,2})(?:['\x{2019}\x{2032}\x{2018}\x{201B}]\s*|\s+)(\d{1,2}(?:[.,]\d+)?)["\x{2033}\x{201D}\x{201C}]?\s*[,;]?\s*(-?\d{1,3})(?:\x{B0}\s*|\s+)(\d{1,2})(?:['\x{2019}\x{2032}\x{2018}\x{201B}]\s*|\s+)(\d{1,2}(?:[.,]\d+)?)["\x{2033}\x{201D}\x{201C}]?$"#;

/// `40° 26.767' N 79° 58.933' W`
pub const RE_DM_NS_DM_EW: &'static str =
    r#"^(-?\d{1,2})(?:\x{B0}\s*|\s+)(\d{1,2}(?:[.,]\d+)?)['\x{2019}\x{2032}\x{2018}\x{201B}]?\s*(N|S)\s*[,;]?\s*(-?\d{1,3})(?:\x{B0}\s*|\s+)(\d{1,2}(?:[.,]\d+)?)['\x{2019}\x{2032}\x{2018}\x{201B}]?\s*(E|W)$"#;

/// `N 40° 26.767' W 79° 58.933'`
pub const RE_NS_DM_EW_DM: &'static str =
    r#"^(N|S)\s*(-?\d{1,2})(?:\x{B0}\s*|\s+)(\d{1,2}(?:[.,]\d+)?)['\x{2019}\x{2032}\x{2018}\x{201B}]?\s*[,;]?\s*(E|W)\s*(-?\d{1,3})(?:\x{B0}\s*|\s+)(\d{1,2}(?:[.,]\d+)?)['\x{2019}\x{2032}\x{2018}\x{201B}]?$"#;

/// `40° 26.767' 79° 58.933'`
pub const RE_DM_DM: &'static str =
    r#"^(-?\d{1,2})(?:\x{B0}\s*|\s+)(\d{1,2}(?:[.,]\d+)?)['\x{2019}\x{2032}\x{2018}\x{201B}]?\s*[,;]?\s*(-?\d{1,3})(?:\x{B0}\s*|\s+)(\d{1,2}(?:[.,]\d+)?)['\x{2019}\x{2032}\x{2018}\x{201B}]?$"#;

/// `N 40.446° W 79.982°`
pub const RE_NS_D_EW_D: &'static str =
    r#"^(N|S)\s*(-?\d{1,2}(?:[.,]\d+)?)\x{B0}?\s*[,;]?\s*(E|W)\s*(-?\d{1,3}(?:[.,]\d+)?)\x{B0}?$"#;

/// `40.446° N 79.982° W`
pub const RE_D_NS_D_EW: &'static str =
    r#"^(-?\d{1,2}(?:[.,]\d+)?)\x{B0}?\s*(N|S)\s*[,;]?\s*(-?\d{1,3}(?:[.,]\d+)?)\x{B0}?\s*(E|W)$"#;

/// `40.446° 79.982°`: here something must part the two numbers.
pub const RE_D_D: &'static str =
    r#"^(-?\d{1,2}(?:[.,]\d+)?)(?:\x{B0}\s*[,;]?\s*|\s*[,;]\s*|\s+)(-?\d{1,3}(?:[.,]\d+)?)\x{B0}?$"#;

/// Which parts of an angle a layout writes.
#[derive(Debug, Clone, Copy, PartialEq, Eq, Structural)]
pub enum Family {
    /// Degrees, minutes and seconds.
    Dms,
    /// Degrees and decimal minutes.
    Dm,
    /// Decimal degrees.
    D,
}

/// Where a layout has its hemisphere letter.
#[derive(Debug, Clone, Copy, PartialEq, Eq, Structural)]
pub enum LetterPlace {
    /// After the numbers: `40° N`.
    After,
    /// Before the numbers: `N 40°`.
    Before,
    /// Nowhere: the angle counts as North or East.
    Absent,
}

/// One recognized textual layout.
#[derive(Debug, Clone, Copy, PartialEq, Eq, Structural)]
pub struct Layout {
    pub family: Family,
    pub letter: LetterPlace,
}

/// Which capture group holds which part of one angle. Group 0 is the whole
/// match, so the parts count from 1.
#[derive(Debug, Clone, Copy, PartialEq, Eq, Structural)]
pub struct Roles {
    pub hemisphere: Option<usize>,
    pub degrees: usize,
    pub minutes: Option<usize>,
    pub seconds: Option<usize>,
}

impl Family {
    /// How many numbers the family writes for one angle.
    pub open spec fn parts(self) -> usize {
        match self {
            Family::Dms => 3,
            Family::Dm => 2,
            Family::D => 1,
        }
    }

    /// How many numbers the family writes for one angle.
    pub fn count(self) -> (r: usize)
        ensures
            r == self.parts(),
    {
        match self {
            Family::Dms => 3,
            Family::Dm => 2,
            Family::D => 1,
        }
    }
}

impl Layout {
    /// How many capture groups one angle takes.
    pub open spec fn width(self) -> usize {
        if self.letter == LetterPlace::Absent {
            self.family.parts()
        } else {
            (self.family.parts() + 1) as usize
        }
    }

    /// The capture groups of an angle: of the only or first one, or, with
    /// `second`, of the second angle of a two-sided pattern. The numbers
    /// follow each other, degrees first; the letter stands before or after
    /// them.
    pub open spec fn roles(self, second: bool) -> Roles {
        let offset: usize = if second {
            self.width()
        } else {
            0
        };
        let first: usize = if self.letter == LetterPlace::Before {
            (offset + 2) as usize
        } else {
            (offset + 1) as usize
        };
        Roles {
            hemisphere: match self.letter {
                LetterPlace::After => Some((first + self.family.parts()) as usize),
                LetterPlace::Before => Some((offset + 1) as usize),
                LetterPlace::Absent => None,
            },
            degrees: first,
            minutes: if self.family == Family::D {
                None
            } else {
                Some((first + 1) as usize)
            },
            seconds: if self.family == Family::Dms {
                Some((first + 2) as usize)
            } else {
                None
            },
        }
    }

    /// Executable form of [`Layout::roles`].
    pub fn capture_roles(self, second: bool) -> (r: Roles)
        ensures
            r == self.roles(second),
    {
        let parts = self.family.count();
        let offset: usize = if !second {
            0
        } else if self.letter == LetterPlace::Absent {
            parts
        } else {
            parts + 1
        };
        let first: usize = if self.letter == LetterPlace::Before {
            offset + 2
        } else {
            offset + 1
        };
        Roles {
            hemisphere: match self.letter {
                LetterPlace::After => Some(first + parts),
                LetterPlace::Before => Some(offset + 1),
                LetterPlace::Absent => None,
            },
            degrees: first,
            minutes: if self.family == Family::D {
                None
            } else {
                Some(first + 1)
            },
            seconds: if self.family == Family::Dms {
                Some(first + 2)
            } else {
                None
            },
        }
    }

    /// The characters of the one-sided pattern.
    pub open spec fn single_pattern_text(self) -> Seq<char> {
        match (self.family, self.letter) {
            (Family::Dms, LetterPlace::After) => RE_DMS_NSEW@,
            (Family::Dms, LetterPlace::Before) => RE_NSEW_DMS@,
            (Family::Dms, LetterPlace::Absent) => RE_DMS@,
            (Family::Dm, LetterPlace::After) => RE_DM_NSEW@,
            (Family::Dm, LetterPlace::Before) => RE_NSEW_DM@,
            (Family::Dm, LetterPlace::Absent) => RE_DM@,
            (Family::D, LetterPlace::After) => RE_D_NSEW@,
            (Family::D, LetterPlace::Before) => RE_NSEW_D@,
            (Family::D, LetterPlace::Absent) => RE_D@,
        }
    }

    /// The pattern for a single angle in this layout.
    pub fn single_pattern(self) -> (r: &'static str)
        ensures
            r@ == self.single_pattern_text(),
    {
        match (self.family, self.letter) {
            (Family::Dms, LetterPlace::After) => RE_DMS_NSEW,
            (Family::Dms, LetterPlace::Before) => RE_NSEW_DMS,
            (Family::Dms, LetterPlace::Absent) => RE_DMS,
            (Family::Dm, LetterPlace::After) => RE_DM_NSEW,
            (Family::Dm, LetterPlace::Before) => RE_NSEW_DM,
            (Family::Dm, LetterPlace::Absent) => RE_DM,
            (Family::D, LetterPlace::After) => RE_D_NSEW,
            (Family::D, LetterPlace::Before) => RE_NSEW_D,
            (Family::D, LetterPlace::Absent) => RE_D,
        }
    }

    /// The characters of the two-sided pattern.
    pub open spec fn pair_pattern_text(self) -> Seq<char> {
        match (self.family, self.letter) {
            (Family::Dms, LetterPlace::After) => RE_DMS_NS_DMS_EW@,
            (Family::Dms, LetterPlace::Before) => RE_NS_DMS_EW_DMS@,
            (Family::Dms, LetterPlace::Absent) => RE_DMS_DMS@,
            (Family::Dm, LetterPlace::After) => RE_DM_NS_DM_EW@,
            (Family::Dm, LetterPlace::Before) => RE_NS_DM_EW_DM@,
            (Family::Dm, LetterPlace::Absent) => RE_DM_DM@,
            (Family::D, LetterPlace::After) => RE_D_NS_D_EW@,
            (Family::D, LetterPlace::Before) => RE_NS_D_EW_D@,
            (Family::D, LetterPlace::Absent) => RE_D_D@,
        }
    }

    /// The pattern for a latitude followed by a longitude in this layout.
    pub fn pair_pattern(self) -> (r: &'static str)
        ensures
            r@ == self.pair_pattern_text(),
    {
        match (self.family, self.letter) {
            (Family::Dms, LetterPlace::After) => RE_DMS_NS_DMS_EW,
            (Family::Dms, LetterPlace::Before) => RE_NS_DMS_EW_DMS,
            (Family::Dms, LetterPlace::Absent) => RE_DMS_DMS,
            (Family::Dm, LetterPlace::After) => RE_DM_NS_DM_EW,
            (Family::Dm, LetterPlace::Before) => RE_NS_DM_EW_DM,
            (Family::Dm, LetterPlace::Absent) => RE_DM_DM,
            (Family::D, LetterPlace::After) => RE_D_NS_D_EW,
            (Family::D, LetterPlace::Before) => RE_NS_D_EW_D,
            (Family::D, LetterPlace::Absent) => RE_D_D,
        }
    }
}

/// The capture groups of every layout, written out as a table: the groups of
/// the hemisphere letter, the degrees, the minutes and the seconds, for the
/// only or first angle and, with `second`, for the second angle of a
/// two-sided pattern.
pub open spec fn role_table(layout: Layout, second: bool) -> (
    Option<usize>,
    usize,
    Option<usize>,
    Option<usize>,
) {
    match (layout.family, layout.letter, second) {
        (Family::Dms, LetterPlace::After, false) => (Some(4), 1, Some(2), Some(3)),
        (Family::Dms, LetterPlace::After, true) => (Some(8), 5, Some(6), Some(7)),
        (Family::Dms, LetterPlace::Before, false) => (Some(1), 2, Some(3), Some(4)),
        (Family::Dms, LetterPlace::Before, true) => (Some(5), 6, Some(7), Some(8)),
        (Family::Dms, LetterPlace::Absent, false) => (None, 1, Some(2), Some(3)),
        (Family::Dms, LetterPlace::Absent, true) => (None, 4, Some(5), Some(6)),
        (Family::Dm, LetterPlace::After, false) => (Some(3), 1, Some(2), None),
        (Family::Dm, LetterPlace::After, true) => (Some(6), 4, Some(5), None),
        (Family::Dm, LetterPlace::Before, false) => (Some(1), 2, Some(3), None),
        (Family::Dm, LetterPlace::Before, true) => (Some(4), 5, Some(6), None),
        (Family::Dm, LetterPlace::Absent, false) => (None, 1, Some(2), None),
        (Family::Dm, LetterPlace::Absent, true) => (None, 3, Some(4), None),
        (Family::D, LetterPlace::After, false) => (Some(2), 1, None, None),
        (Family::D, LetterPlace::After, true) => (Some(4), 3, None, None),
        (Family::D, LetterPlace::Before, false) => (Some(1), 2, None, None),
        (Family::D, LetterPlace::Before, true) => (Some(3), 4, None, None),
        (Family::D, LetterPlace::Absent, false) => (None, 1, None, None),
        (Family::D, LetterPlace::Absent, true) => (None, 2, None, None),
    }
}

/// The roles that [`Layout::roles`] computes are those of the table.
pub proof fn lemma_roles_by_layout(layout: Layout, second: bool)
    ensures
        layout.roles(second).hemisphere == role_table(layout, second).0,
        layout.roles(second).degrees == role_table(layout, second).1,
        layout.roles(second).minutes == role_table(layout, second).2,
        layout.roles(second).seconds == role_table(layout, second).3,
{
}

/// The layouts in the order in which they are tried, for single angles and
/// for pairs alike: sexagesimal first, decimal degrees last, and within a
/// family the layouts with a hemisphere letter before the one without.
pub open spec fn priority() -> Seq<Layout> {
    seq![
        Layout { family: Family::Dms, letter: LetterPlace::After },
        Layout { family: Family::Dms, letter: LetterPlace::Before },
        Layout { family: Family::Dms, letter: LetterPlace::Absent },
        Layout { family: Family::Dm, letter: LetterPlace::After },
        Layout { family: Family::Dm, letter: LetterPlace::Before },
        Layout { family: Family::Dm, letter: LetterPlace::Absent },
        Layout { family: Family::D, letter: LetterPlace::Before },
        Layout { family: Family::D, letter: LetterPlace::After },
        Layout { family: Family::D, letter: LetterPlace::Absent },
    ]
}

/// The layouts in the order in which they are tried.
pub fn layouts() -> (r: Vec<Layout>)
    ensures
        r@ == priority(),
{
    let mut r: Vec<Layout> = Vec::new();
    r.push(Layout { family: Family::Dms, letter: LetterPlace::After });
    r.push(Layout { family: Family::Dms, letter: LetterPlace::Before });
    r.push(Layout { family: Family::Dms, letter: LetterPlace::Absent });
    r.push(Layout { family: Family::Dm, letter: LetterPlace::After });
    r.push(Layout { family: Family::Dm, letter: LetterPlace::Before });
    r.push(Layout { family: Family::Dm, letter: LetterPlace::Absent });
    r.push(Layout { family: Family::D, letter: LetterPlace::Before });
    r.push(Layout { family: Family::D, letter: LetterPlace::After });
    r.push(Layout { family: Family::D, letter: LetterPlace::Absent });
    assert(r@ =~= priority());
    r
}

/// What `regex::Regex::captures` finds: for the regular expression written as
/// `pattern` and the haystack `text`, the text of each capture group of the
/// leftmost match, group 0 being the whole match and a group that took no
/// part being `None`; or `None` where the expression does not match, or where
/// `pattern` is no regular expression that `regex::Regex::new` accepts.
pub uninterp spec fn regex_captures(pattern: Seq<char>, text: Seq<char>) -> Option<
    Seq<Option<Seq<char>>>,
>;

/// The capture groups as sequences of characters.
pub open spec fn groups_view(groups: Vec<Option<String>>) -> Seq<Option<Seq<char>>> {
    Seq::new(
        groups@.len(),
        |i: int|
            match groups@[i] {
                Some(s) => Some(s@),
                None => None,
            },
    )
}

/// The outcome of a match as sequences of characters.
pub open spec fn captures_view(r: Option<Vec<Option<String>>>) -> Option<Seq<Option<Seq<char>>>> {
    match r {
        Some(groups) => Some(groups_view(groups)),
        None => None,
    }
}

/// Compiles `pattern` with `regex::Regex::new` and matches it against `text`
/// with `regex::Regex::captures`, copying out the text of every group with
/// `Captures::get` and `Match::as_str`.
///
/// Trusted: that the outcome depends on the two strings alone, which is what
/// gives it the name [`regex_captures`]. Nothing is claimed about what any
/// pattern matches.
#[verifier::external_body]
pub(crate) fn captures(pattern: &str, text: &str) -> (r: Option<Vec<Option<String>>>)
    ensures
        captures_view(r) == regex_captures(pattern@, text@),
{
    let re = match regex::Regex::new(pattern) {
        Ok(re) => re,
        Err(_) => return None,
    };
    let caps = re.captures(text)?;
    let mut groups = Vec::new();
    for i in 0..caps.len() {
        groups.push(match caps.get(i) {
            Some(m) => Some(m.as_str().to_string()),
            None => None,
        });
    }
    Some(groups)
}

} // verus!
