//! Popup sizes and the client-width profiles that choose them.
use vstd::prelude::*;

use crate::text::{
    chars_are_blank, chars_of, is_blank, lemma_text_le_antisymmetric, lemma_text_le_transitive, text_le,
    texts_in_order,
};

verus! {

pub const CAPTURE_POPUP: &'static str = "capture";

pub const REVIEW_POPUP: &'static str = "review";

/// A popup's size: each dimension is a count of cells or a percentage.
#[derive(Debug, Clone, PartialEq, Eq)]
pub struct PopupSize {
    pub width: String,
    pub height: String,
}

/// A popup size under a popup's name.
#[derive(Debug, Clone, PartialEq, Eq)]
pub struct NamedPopup {
    pub name: String,
    pub size: PopupSize,
}

/// The client widths a profile applies to (both bounds inclusive).
#[derive(Debug, Clone, Copy, PartialEq, Eq, Default)]
pub struct ProfileMatch {
    pub min_client_width: Option<u16>,
    pub max_client_width: Option<u16>,
}

/// Popup sizes that replace the defaults when the client width matches.
#[derive(Debug, Clone, PartialEq, Eq)]
pub struct Profile {
    pub name: String,
    pub selector: ProfileMatch,
    pub popups: Vec<NamedPopup>,
}

/// The plugin's configuration: default popup sizes and ordered profiles.
#[derive(Debug, Clone, PartialEq, Eq)]
pub struct Config {
    pub inline_comments: bool,
    pub popups: Vec<NamedPopup>,
    pub profiles: Vec<Profile>,
}

#[derive(Debug, Clone, Copy, PartialEq, Eq)]
pub enum Dimension {
    Width,
    Height,
}

/// Why a configuration was refused, or a popup could not be found.
#[derive(Debug, Clone, PartialEq, Eq)]
pub enum ConfigError {
    MissingPopup { name: String },
    InvalidPopupSize { dimension: Dimension, value: String },
    EmptyProfileName,
    ProfileWidthRange { profile: String },
    UnknownProfilePopup { profile: String, popup: String },
    UnknownPopup { name: String },
}

pub enum ConfigErrorView {
    MissingPopup { name: Seq<char> },
    InvalidPopupSize { dimension: Dimension, value: Seq<char> },
    EmptyProfileName,
    ProfileWidthRange { profile: Seq<char> },
    UnknownProfilePopup { profile: Seq<char>, popup: Seq<char> },
    UnknownPopup { name: Seq<char> },
}

impl View for ConfigError {
    type V = ConfigErrorView;

    open spec fn view(&self) -> ConfigErrorView {
        match self {
            ConfigError::MissingPopup { name } => ConfigErrorView::MissingPopup { name: name@ },
            ConfigError::InvalidPopupSize { dimension, value } => ConfigErrorView::InvalidPopupSize {
                dimension: *dimension,
                value: value@,
            },
            ConfigError::EmptyProfileName => ConfigErrorView::EmptyProfileName,
            ConfigError::ProfileWidthRange { profile } => ConfigErrorView::ProfileWidthRange { profile: profile@ },
            ConfigError::UnknownProfilePopup { profile, popup } => ConfigErrorView::UnknownProfilePopup {
                profile: profile@,
                popup: popup@,
            },
            ConfigError::UnknownPopup { name } => ConfigErrorView::UnknownPopup { name: name@ },
        }
    }
}

pub open spec fn is_ascii_digit(c: char) -> bool {
    '0' <= c && c <= '9'
}

/// The number that a string of ASCII digits denotes.
pub open spec fn digits_value(d: Seq<char>) -> nat
    decreases d.len(),
{
    if d.len() == 0 {
        0
    } else {
        digits_value(d.drop_last()) * 10 + ((d.last() as u32) - 48) as nat
    }
}

/// The text after an optional leading `+`.
pub open spec fn unsigned_digits(s: Seq<char>) -> Seq<char> {
    if s.len() > 0 && s[0] == '+' {
        s.drop_first()
    } else {
        s
    }
}

pub open spec fn all_digits(d: Seq<char>) -> bool {
    forall|i: int| 0 <= i < d.len() ==> is_ascii_digit(#[trigger] d[i])
}

/// What `str::parse::<u16>` gives: an optional `+` then at least one ASCII
/// digit, denoting at most `u16::MAX`.
pub open spec fn parse_u16(s: Seq<char>) -> Option<u16> {
    let d = unsigned_digits(s);
    if d.len() == 0 || !all_digits(d) {
        None
    } else if digits_value(d) > u16::MAX {
        None
    } else {
        Some(digits_value(d) as u16)
    }
}

/// A dimension is a positive cell count, or a percentage from 1% to 100%.
pub open spec fn valid_dimension(value: Seq<char>) -> bool {
    if value.len() > 0 && value.last() == '%' {
        match parse_u16(value.drop_last()) {
            Some(n) => 1 <= n && n <= 100,
            None => false,
        }
    } else {
        match parse_u16(value) {
            Some(n) => n > 0,
            None => false,
        }
    }
}

/// The first invalid dimension of a popup size, width first.
pub open spec fn size_error(size: PopupSize) -> Option<ConfigErrorView> {
    if !valid_dimension(size.width@) {
        Some(ConfigErrorView::InvalidPopupSize { dimension: Dimension::Width, value: size.width@ })
    } else if !valid_dimension(size.height@) {
        Some(ConfigErrorView::InvalidPopupSize { dimension: Dimension::Height, value: size.height@ })
    } else {
        None
    }
}

/// The first popup size (in order) with an invalid dimension.
pub open spec fn sizes_error(popups: Seq<NamedPopup>) -> Option<ConfigErrorView>
    decreases popups.len(),
{
    if popups.len() == 0 {
        None
    } else {
        match size_error(popups[0].size) {
            Some(e) => Some(e),
            None => sizes_error(popups.drop_first()),
        }
    }
}

pub open spec fn has_popup(popups: Seq<NamedPopup>, name: Seq<char>) -> bool {
    exists|i: int| 0 <= i < popups.len() && (#[trigger] popups[i]).name@ == name
}

/// The first problem with a profile's own popups: a name the defaults lack,
/// or an invalid size.
pub open spec fn profile_popups_error(
    defaults: Seq<NamedPopup>,
    profile: Seq<char>,
    popups: Seq<NamedPopup>,
) -> Option<ConfigErrorView>
    decreases popups.len(),
{
    if popups.len() == 0 {
        None
    } else if !has_popup(defaults, popups[0].name@) {
        Some(ConfigErrorView::UnknownProfilePopup { profile, popup: popups[0].name@ })
    } else {
        match size_error(popups[0].size) {
            Some(e) => Some(e),
            None => profile_popups_error(defaults, profile, popups.drop_first()),
        }
    }
}

pub open spec fn profile_error(defaults: Seq<NamedPopup>, p: Profile) -> Option<ConfigErrorView> {
    if is_blank(p.name@) {
        Some(ConfigErrorView::EmptyProfileName)
    } else if p.selector.min_client_width matches Some(min) && p.selector.max_client_width matches Some(
        max,
    ) && min > max {
        Some(ConfigErrorView::ProfileWidthRange { profile: p.name@ })
    } else {
        profile_popups_error(defaults, p.name@, p.popups@)
    }
}

pub open spec fn profiles_error(defaults: Seq<NamedPopup>, profiles: Seq<Profile>) -> Option<ConfigErrorView>
    decreases profiles.len(),
{
    if profiles.len() == 0 {
        None
    } else {
        match profile_error(defaults, profiles[0]) {
            Some(e) => Some(e),
            None => profiles_error(defaults, profiles.drop_first()),
        }
    }
}

/// The first problem with a configuration: a missing `capture` or `review`
/// popup, then invalid default sizes, then the profiles in order.
pub open spec fn config_error(c: Config) -> Option<ConfigErrorView> {
    if !has_popup(c.popups@, CAPTURE_POPUP@) {
        Some(ConfigErrorView::MissingPopup { name: CAPTURE_POPUP@ })
    } else if !has_popup(c.popups@, REVIEW_POPUP@) {
        Some(ConfigErrorView::MissingPopup { name: REVIEW_POPUP@ })
    } else {
        match sizes_error(c.popups@) {
            Some(e) => Some(e),
            None => profiles_error(c.popups@, c.profiles@),
        }
    }
}

/// The size stored under `name`: the first entry with that name.
pub open spec fn find_popup(popups: Seq<NamedPopup>, name: Seq<char>) -> Option<PopupSize>
    decreases popups.len(),
{
    if popups.len() == 0 {
        None
    } else if popups[0].name@ == name {
        Some(popups[0].size)
    } else {
        find_popup(popups.drop_first(), name)
    }
}

pub open spec fn matches_width(m: ProfileMatch, width: u16) -> bool {
    (m.min_client_width matches Some(min) ==> width >= min) && (m.max_client_width matches Some(max)
        ==> width <= max)
}

/// The first profile whose bounds contain `width`.
pub open spec fn profile_for(profiles: Seq<Profile>, width: u16) -> Option<Profile>
    decreases profiles.len(),
{
    if profiles.len() == 0 {
        None
    } else if matches_width(profiles[0].selector, width) {
        Some(profiles[0])
    } else {
        profile_for(profiles.drop_first(), width)
    }
}

/// The size of popup `name`: the default, replaced by the first matching
/// profile's size for that popup when the client width is known and that
/// profile sets one.
pub open spec fn popup_outcome(c: Config, name: Seq<char>, client_width: Option<u16>) -> Result<PopupSize, ConfigErrorView> {
    match find_popup(c.popups@, name) {
        None => Err(ConfigErrorView::UnknownPopup { name }),
        Some(base) => match client_width {
            None => Ok(base),
            Some(w) => match profile_for(c.profiles@, w) {
                Some(p) => match find_popup(p.popups@, name) {
                    Some(s) => Ok(s),
                    None => Ok(base),
                },
                None => Ok(base),
            },
        },
    }
}

pub proof fn lemma_digits_value_prefix(d: Seq<char>, i: int)
    requires
        0 <= i <= d.len(),
    ensures
        digits_value(d.take(i)) <= digits_value(d),
    decreases d.len() - i,
{
    if i < d.len() {
        lemma_digits_value_prefix(d, i + 1);
        assert(d.take(i + 1).drop_last() =~= d.take(i));
    } else {
        assert(d.take(i) =~= d);
    }
}

/// `str::parse::<u16>`.
pub fn parse_u16_chars(s: &[char]) -> (r: Option<u16>)
    ensures
        r == parse_u16(s@),
{
    let start: usize = if s.len() > 0 && s[0] == '+' { 1 } else { 0 };
    let ghost d = unsigned_digits(s@);
    assert(d =~= s@.subrange(start as int, s@.len() as int));
    if start == s.len() {
        return None;
    }
    let mut value: u32 = 0;
    let mut i: usize = start;
    while i < s.len()
        invariant
            start <= i <= s@.len(),
            d == unsigned_digits(s@),
            d == s@.subrange(start as int, s@.len() as int),
            value == digits_value(d.take(i - start)),
            value <= u16::MAX,
            forall|j: int| 0 <= j < i - start ==> is_ascii_digit(#[trigger] d[j]),
        decreases s@.len() - i,
    {
        let c = s[i];
        assert(d[i - start] == c);
        if !('0' <= c && c <= '9') {
            assert(!is_ascii_digit(d[i - start]));
            assert(!all_digits(d));
            assert(parse_u16(s@) is None);
            return None;
        }
        proof {
            let t = d.take(i - start + 1);
            assert(t.drop_last() =~= d.take(i - start));
            assert(t.last() == c);
            assert(digits_value(t) == digits_value(d.take(i - start)) * 10 + ((c as u32) - 48) as nat);
        }
        value = value * 10 + (c as u32 - 48);
        i += 1;
        if value > 65535 {
            proof {
                lemma_digits_value_prefix(d, i - start);
                assert(digits_value(d) > u16::MAX);
            }
            assert(parse_u16(s@) is None);
            return None;
        }
    }
    assert(d.take(d.len() as int) =~= d);
    Some(value as u16)
}

/// Whether a dimension is a positive cell count or a percentage from 1% to 100%.
pub fn exec_valid_dimension(value: &str) -> (r: bool)
    ensures
        r == valid_dimension(value@),
{
    let chars = chars_of(value);
    if chars.len() > 0 && chars[chars.len() - 1] == '%' {
        let mut digits = chars;
        digits.pop();
        match parse_u16_chars(&digits) {
            Some(n) => 1 <= n && n <= 100,
            None => false,
        }
    } else {
        match parse_u16_chars(&chars) {
            Some(n) => n > 0,
            None => false,
        }
    }
}

/// Checks both dimensions of a popup size, width first.
pub fn validate_popup(popup: &PopupSize) -> (r: Result<(), ConfigError>)
    ensures
        match size_error(*popup) {
            None => r is Ok,
            Some(e) => r matches Err(x) && x@ == e,
        },
{
    if !exec_valid_dimension(popup.width.as_str()) {
        return Err(ConfigError::InvalidPopupSize { dimension: Dimension::Width, value: popup.width.clone() });
    }
    if !exec_valid_dimension(popup.height.as_str()) {
        return Err(ConfigError::InvalidPopupSize { dimension: Dimension::Height, value: popup.height.clone() });
    }
    Ok(())
}

/// Whether two strings hold the same characters.
pub fn str_equal(a: &str, b: &str) -> (r: bool)
    ensures
        r == (a@ == b@),
{
    let x = chars_of(a);
    let y = chars_of(b);
    if x.len() != y.len() {
        return false;
    }
    let mut i: usize = 0;
    while i < x.len()
        invariant
            x@ == a@,
            y@ == b@,
            x@.len() == y@.len(),
            i <= x@.len(),
            forall|j: int| 0 <= j < i ==> x@[j] == y@[j],
        decreases x@.len() - i,
    {
        if x[i] != y[i] {
            return false;
        }
        i += 1;
    }
    assert(x@ =~= y@);
    true
}

/// Whether any entry is named `name`.
pub fn contains_popup(popups: &[NamedPopup], name: &str) -> (r: bool)
    ensures
        r == has_popup(popups@, name@),
{
    let mut i: usize = 0;
    while i < popups.len()
        invariant
            i <= popups@.len(),
            forall|j: int| 0 <= j < i ==> (#[trigger] popups@[j]).name@ != name@,
        decreases popups@.len() - i,
    {
        if str_equal(popups[i].name.as_str(), name) {
            return true;
        }
        i += 1;
    }
    false
}

/// The size stored under `name`, if any.
pub fn get_popup(popups: &[NamedPopup], name: &str) -> (r: Option<PopupSize>)
    ensures
        r == find_popup(popups@, name@),
{
    let mut i: usize = 0;
    assert(popups@.subrange(0, popups@.len() as int) =~= popups@);
    while i < popups.len()
        invariant
            i <= popups@.len(),
            find_popup(popups@, name@) == find_popup(popups@.subrange(i as int, popups@.len() as int), name@),
        decreases popups@.len() - i,
    {
        let ghost rest = popups@.subrange(i as int, popups@.len() as int);
        assert(rest.drop_first() =~= popups@.subrange(i + 1, popups@.len() as int));
        if str_equal(popups[i].name.as_str(), name) {
            return Some(popups[i].size.duplicate());
        }
        i += 1;
    }
    None
}

impl PopupSize {
    /// An equal copy.
    pub fn duplicate(&self) -> (r: Self)
        ensures
            r == *self,
    {
        PopupSize { width: self.width.clone(), height: self.height.clone() }
    }
}

impl ProfileMatch {
    /// Whether the client width lies within the profile's bounds.
    pub fn matches(&self, width: u16) -> (r: bool)
        ensures
            r == matches_width(*self, width),
    {
        let above = match self.min_client_width {
            Some(min) => width >= min,
            None => true,
        };
        let below = match self.max_client_width {
            Some(max) => width <= max,
            None => true,
        };
        above && below
    }
}

impl Config {
    /// Checks the configuration: `capture` and `review` popups exist, every
    /// size is valid, every profile has a name, ordered bounds, and only
    /// sizes for popups that exist.
    pub fn validate(&self) -> (r: Result<(), ConfigError>)
        requires
            self.well_formed(),
        ensures
            match config_error(*self) {
                None => r is Ok,
                Some(e) => r matches Err(x) && x@ == e,
            },
    {
        if !contains_popup(&self.popups, CAPTURE_POPUP) {
            return Err(ConfigError::MissingPopup { name: CAPTURE_POPUP.to_string() });
        }
        if !contains_popup(&self.popups, REVIEW_POPUP) {
            return Err(ConfigError::MissingPopup { name: REVIEW_POPUP.to_string() });
        }
        let mut i: usize = 0;
        assert(self.popups@.subrange(0, self.popups@.len() as int) =~= self.popups@);
        while i < self.popups.len()
            invariant
                i <= self.popups@.len(),
                has_popup(self.popups@, CAPTURE_POPUP@),
                has_popup(self.popups@, REVIEW_POPUP@),
                sizes_error(self.popups@) == sizes_error(self.popups@.subrange(i as int, self.popups@.len() as int)),
            decreases self.popups@.len() - i,
        {
            let ghost rest = self.popups@.subrange(i as int, self.popups@.len() as int);
            assert(rest.drop_first() =~= self.popups@.subrange(i + 1, self.popups@.len() as int));
            match validate_popup(&self.popups[i].size) {
                Ok(()) => {},
                Err(e) => {
                    return Err(e);
                },
            }
            i += 1;
        }
        assert(self.popups@.subrange(i as int, self.popups@.len() as int) =~= Seq::<NamedPopup>::empty());
        let mut p: usize = 0;
        assert(self.profiles@.subrange(0, self.profiles@.len() as int) =~= self.profiles@);
        while p < self.profiles.len()
            invariant
                p <= self.profiles@.len(),
                config_error(*self) == profiles_error(
                    self.popups@,
                    self.profiles@.subrange(p as int, self.profiles@.len() as int),
                ),
            decreases self.profiles@.len() - p,
        {
            let ghost rest = self.profiles@.subrange(p as int, self.profiles@.len() as int);
            assert(rest.drop_first() =~= self.profiles@.subrange(p + 1, self.profiles@.len() as int));
            let profile = &self.profiles[p];
            if chars_are_blank(&chars_of(profile.name.as_str())) {
                return Err(ConfigError::EmptyProfileName);
            }
            match (profile.selector.min_client_width, profile.selector.max_client_width) {
                (Some(min), Some(max)) => {
                    if min > max {
                        return Err(ConfigError::ProfileWidthRange { profile: profile.name.clone() });
                    }
                },
                _ => {},
            }
            let mut k: usize = 0;
            assert(profile.popups@.subrange(0, profile.popups@.len() as int) =~= profile.popups@);
            while k < profile.popups.len()
                invariant
                    k <= profile.popups@.len(),
                    config_error(*self) == profiles_error(self.popups@, rest),
                    rest[0] == *profile,
                    rest.len() > 0,
                    profile_error(self.popups@, *profile) == profile_popups_error(
                        self.popups@,
                        profile.name@,
                        profile.popups@.subrange(k as int, profile.popups@.len() as int),
                    ),
                decreases profile.popups@.len() - k,
            {
                let ghost prest = profile.popups@.subrange(k as int, profile.popups@.len() as int);
                assert(prest.drop_first() =~= profile.popups@.subrange(k + 1, profile.popups@.len() as int));
                let entry = &profile.popups[k];
                if !contains_popup(&self.popups, entry.name.as_str()) {
                    return Err(
                        ConfigError::UnknownProfilePopup {
                            profile: profile.name.clone(),
                            popup: entry.name.clone(),
                        },
                    );
                }
                match validate_popup(&entry.size) {
                    Ok(()) => {},
                    Err(e) => {
                        return Err(e);
                    },
                }
                k += 1;
            }
            assert(profile.popups@.subrange(k as int, profile.popups@.len() as int) =~= Seq::<NamedPopup>::empty());
            p += 1;
        }
        Ok(())
    }

    /// The size of popup `name` for a client of `client_width` cells (the
    /// defaults when the width is unknown).
    pub fn popup(&self, name: &str, client_width: Option<u16>) -> (r: Result<PopupSize, ConfigError>)
        requires
            self.well_formed(),
        ensures
            match popup_outcome(*self, name@, client_width) {
                Ok(s) => r == Ok::<PopupSize, ConfigError>(s),
                Err(e) => r matches Err(x) && x@ == e,
            },
    {
        let base = match get_popup(&self.popups, name) {
            Some(base) => base,
            None => {
                return Err(ConfigError::UnknownPopup { name: name.to_string() });
            },
        };
        let width = match client_width {
            Some(width) => width,
            None => {
                return Ok(base);
            },
        };
        let mut i: usize = 0;
        assert(self.profiles@.subrange(0, self.profiles@.len() as int) =~= self.profiles@);
        while i < self.profiles.len()
            invariant
                i <= self.profiles@.len(),
                find_popup(self.popups@, name@) == Some(base),
                client_width == Some(width),
                profile_for(self.profiles@, width) == profile_for(
                    self.profiles@.subrange(i as int, self.profiles@.len() as int),
                    width,
                ),
            decreases self.profiles@.len() - i,
        {
            let ghost rest = self.profiles@.subrange(i as int, self.profiles@.len() as int);
            assert(rest.drop_first() =~= self.profiles@.subrange(i + 1, self.profiles@.len() as int));
            if self.profiles[i].selector.matches(width) {
                return match get_popup(&self.profiles[i].popups, name) {
                    Some(size) => Ok(size),
                    None => Ok(base),
                };
            }
            i += 1;
        }
        Ok(base)
    }
}

/// A configuration that passed validation.
#[derive(Debug)]
pub struct LoadedConfig {
    config: Config,
}

impl LoadedConfig {
    #[verifier::type_invariant]
    spec fn loaded(self) -> bool {
        self.config.well_formed() && config_error(self.config) is None
    }
}

impl View for LoadedConfig {
    type V = Config;

    closed spec fn view(&self) -> Config {
        self.config
    }
}

impl LoadedConfig {
    /// Accepts a configuration once it validates.
    pub fn from_config(config: Config) -> (r: Result<Self, ConfigError>)
        requires
            config.well_formed(),
        ensures
            match config_error(config) {
                None => r matches Ok(l) && l@ == config,
                Some(e) => r matches Err(x) && x@ == e,
            },
    {
        match config.validate() {
            Ok(()) => Ok(LoadedConfig { config }),
            Err(e) => Err(e),
        }
    }

    /// The size of popup `name` for a client of `client_width` cells.
    pub fn popup(&self, name: &str, client_width: Option<u16>) -> (r: Result<PopupSize, ConfigError>)
        ensures
            match popup_outcome(self@, name@, client_width) {
                Ok(s) => r == Ok::<PopupSize, ConfigError>(s),
                Err(e) => r matches Err(x) && x@ == e,
            },
    {
        proof {
            use_type_invariant(self);
        }
        self.config.popup(name, client_width)
    }

    /// Whether a capture comments on Herdr's native selection directly.
    pub fn inline_comments(&self) -> (r: bool)
        ensures
            r == self@.inline_comments,
    {
        self.config.inline_comments
    }
}

/// Popup names in strictly ascending order (by code point), so each name
/// occurs once: the order of a map keyed by name.
pub open spec fn names_ascending(popups: Seq<NamedPopup>) -> bool {
    forall|i: int, j: int|
        0 <= i < j < popups.len() ==> text_le(#[trigger] popups[i].name@, #[trigger] popups[j].name@)
            && popups[i].name@ != popups[j].name@
}

/// Whether the popup names are in strictly ascending order.
pub fn names_ascend(popups: &[NamedPopup]) -> (r: bool)
    ensures
        r == names_ascending(popups@),
{
    let mut i: usize = 1;
    if popups.len() == 0 {
        return true;
    }
    while i < popups.len()
        invariant
            1 <= i <= popups@.len(),
            names_ascending(popups@.take(i as int)),
        decreases popups@.len() - i,
    {
        let prev = popups[i - 1].name.as_str();
        let cur = popups[i].name.as_str();
        if !texts_in_order(prev, cur) || str_equal(prev, cur) {
            assert(!(text_le(popups@[i - 1].name@, popups@[i as int].name@) && popups@[i - 1].name@
                != popups@[i as int].name@));
            return false;
        }
        proof {
            let p = popups@.take(i + 1);
            assert forall|a: int, b: int| 0 <= a < b < p.len() implies text_le(#[trigger] p[a].name@, #[trigger] p[b].name@)
                && p[a].name@ != p[b].name@ by {
                if b < i {
                    assert(popups@.take(i as int)[a] == p[a] && popups@.take(i as int)[b] == p[b]);
                } else if a < i - 1 {
                    let q = popups@.take(i as int);
                    assert(q[a] == p[a] && q[i - 1] == p[i - 1]);
                    lemma_text_le_transitive(p[a].name@, p[i - 1].name@, p[b].name@);
                    if p[a].name@ == p[b].name@ {
                        lemma_text_le_antisymmetric(p[i - 1].name@, p[b].name@);
                    }
                }
            }
        }
        i += 1;
    }
    assert(popups@.take(popups@.len() as int) =~= popups@);
    true
}

impl Config {
    /// The popup names of the defaults and of every profile ascend, as those
    /// of a map keyed by name do.
    pub open spec fn well_formed(self) -> bool {
        &&& names_ascending(self.popups@)
        &&& forall|k: int| 0 <= k < self.profiles@.len() ==> names_ascending(#[trigger] self.profiles@[k].popups@)
    }

    /// Whether the popup names of the defaults and of every profile ascend.
    pub fn names_in_order(&self) -> (r: bool)
        ensures
            r == self.well_formed(),
    {
        if !names_ascend(&self.popups) {
            return false;
        }
        let mut k: usize = 0;
        while k < self.profiles.len()
            invariant
                k <= self.profiles@.len(),
                forall|j: int| 0 <= j < k ==> names_ascending(#[trigger] self.profiles@[j].popups@),
            decreases self.profiles@.len() - k,
        {
            if !names_ascend(&self.profiles[k].popups) {
                return false;
            }
            k += 1;
        }
        true
    }
}

/// The profile chosen for a width is the first one, in order, whose bounds
/// contain it.
pub proof fn lemma_first_matching_profile(profiles: Seq<Profile>, width: u16, k: int)
    requires
        0 <= k < profiles.len(),
        matches_width(profiles[k].selector, width),
        forall|j: int| 0 <= j < k ==> !matches_width(#[trigger] profiles[j].selector, width),
    ensures
        profile_for(profiles, width) == Some(profiles[k]),
    decreases k,
{
    if k > 0 {
        assert(!matches_width(profiles[0].selector, width));
        let rest = profiles.drop_first();
        assert forall|j: int| 0 <= j < k - 1 implies !matches_width(#[trigger] rest[j].selector, width) by {
            assert(rest[j] == profiles[j + 1]);
        }
        lemma_first_matching_profile(rest, width, k - 1);
    }
}

/// Profiles are checked in order and the first match wins: when profile `k`
/// is the first whose bounds contain the client width and it sizes popup
/// `name`, that popup gets its size.
pub proof fn law_first_matching_profile_wins(c: Config, name: Seq<char>, width: u16, k: int)
    requires
        find_popup(c.popups@, name) is Some,
        0 <= k < c.profiles@.len(),
        matches_width(c.profiles@[k].selector, width),
        forall|j: int| 0 <= j < k ==> !matches_width(#[trigger] c.profiles@[j].selector, width),
        find_popup(c.profiles@[k].popups@, name) is Some,
    ensures
        popup_outcome(c, name, Some(width)) == Ok::<PopupSize, ConfigErrorView>(
            find_popup(c.profiles@[k].popups@, name)->Some_0,
        ),
{
    lemma_first_matching_profile(c.profiles@, width, k);
}

/// With no profile matching the client width, or no width known, a popup
/// keeps its default size.
pub proof fn law_default_without_matching_profile(c: Config, name: Seq<char>, width: Option<u16>)
    requires
        find_popup(c.popups@, name) is Some,
        width matches Some(w) ==> forall|j: int| 0 <= j < c.profiles@.len() ==> !matches_width(#[trigger] c.profiles@[j].selector, w),
    ensures
        popup_outcome(c, name, width) == Ok::<PopupSize, ConfigErrorView>(find_popup(c.popups@, name)->Some_0),
{
    if let Some(w) = width {
        lemma_no_matching_profile(c.profiles@, w);
    }
}

proof fn lemma_no_matching_profile(profiles: Seq<Profile>, width: u16)
    requires
        forall|j: int| 0 <= j < profiles.len() ==> !matches_width(#[trigger] profiles[j].selector, width),
    ensures
        profile_for(profiles, width) is None,
    decreases profiles.len(),
{
    if profiles.len() > 0 {
        assert(!matches_width(profiles[0].selector, width));
        let rest = profiles.drop_first();
        assert forall|j: int| 0 <= j < rest.len() implies !matches_width(#[trigger] rest[j].selector, width) by {
            assert(rest[j] == profiles[j + 1]);
        }
        lemma_no_matching_profile(rest, width);
    }
}

} // verus!
