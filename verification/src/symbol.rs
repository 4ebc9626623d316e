//! Instrument symbols (`600000.SH`, `AAPL.US`, ...), the market region named
//! by their exchange suffix, and the time zone of each region.
use vstd::prelude::*;
use vstd::string::*;

use crate::error::{ConfigError, Error};
use crate::text::{chars_of, contains_char};

verus! {

/// Name for the text that Rust's `Debug` formatting gives of a string: the
/// string in double quotes, with quotes, backslashes and control characters
/// escaped.
pub uninterp spec fn debug_quoted(s: Seq<char>) -> Seq<char>;

/// Formats `s` with `{:?}` (std's `Debug` for `str`); the contract names the
/// result and says nothing more of its characters.
#[verifier::external_body]
fn debug_quote(s: &str) -> (r: String)
    ensures
        r@ == debug_quoted(s@),
{
    format!("{s:?}")
}

/// A market region supported by TickFlow: mainland China (`CN`), Hong Kong
/// (`HK`), or the United States (`US`).
#[derive(Debug, Clone, Copy, PartialEq, Eq, Structural, Hash)]
pub enum Region {
    Cn,
    Hk,
    Us,
}

/// The time zone of a market's primary exchange(s).
#[derive(Debug, Clone, Copy, PartialEq, Eq, Structural, Hash)]
pub enum TimeZone {
    /// `Asia/Shanghai`.
    AsiaShanghai,
    /// `Asia/Hong_Kong`.
    AsiaHongKong,
    /// `America/New_York`.
    AmericaNewYork,
}

/// The IANA name of a time zone.
pub open spec fn zone_name(tz: TimeZone) -> Seq<char> {
    match tz {
        TimeZone::AsiaShanghai => "Asia/Shanghai"@,
        TimeZone::AsiaHongKong => "Asia/Hong_Kong"@,
        TimeZone::AmericaNewYork => "America/New_York"@,
    }
}

impl TimeZone {
    /// The zone's IANA name, as understood by `chrono-tz`.
    pub fn name(&self) -> (r: &'static str)
        ensures
            r@ == zone_name(*self),
    {
        match self {
            TimeZone::AsiaShanghai => "Asia/Shanghai",
            TimeZone::AsiaHongKong => "Asia/Hong_Kong",
            TimeZone::AmericaNewYork => "America/New_York",
        }
    }
}

/// The two-letter code of a region, matching the JSON wire format.
pub open spec fn region_code(r: Region) -> Seq<char> {
    match r {
        Region::Cn => "CN"@,
        Region::Hk => "HK"@,
        Region::Us => "US"@,
    }
}

/// The two-letter code of a region as a static string.
pub open spec fn region_str(r: Region) -> &'static str {
    match r {
        Region::Cn => "CN",
        Region::Hk => "HK",
        Region::Us => "US",
    }
}

/// The region whose two-letter code is `s`, if any.
pub open spec fn region_of_code(s: Seq<char>) -> Option<Region> {
    if s == "CN"@ {
        Some(Region::Cn)
    } else if s == "HK"@ {
        Some(Region::Hk)
    } else if s == "US"@ {
        Some(Region::Us)
    } else {
        None
    }
}

/// The time zone of each region.
pub open spec fn region_zone(r: Region) -> TimeZone {
    match r {
        Region::Cn => TimeZone::AsiaShanghai,
        Region::Hk => TimeZone::AsiaHongKong,
        Region::Us => TimeZone::AmericaNewYork,
    }
}

impl Region {
    /// Canonical two-letter code, matching the JSON wire format.
    pub fn as_str(&self) -> (r: &'static str)
        ensures
            r@ == region_code(*self),
            r == region_str(*self),
    {
        match self {
            Region::Cn => "CN",
            Region::Hk => "HK",
            Region::Us => "US",
        }
    }

    /// Parses a region from its two-letter code; `None` for unrecognised
    /// codes.
    pub fn parse(s: &str) -> (r: Option<Region>)
        ensures
            r == region_of_code(s@),
    {
        let cs = chars_of(s);
        proof {
            reveal_strlit("CN");
            reveal_strlit("HK");
            reveal_strlit("US");
        }
        if cs.len() != 2 {
            assert(s@.len() != 2);
            return None;
        }
        let (a, b) = (cs[0], cs[1]);
        if a == 'C' && b == 'N' {
            assert(s@ =~= "CN"@);
            Some(Region::Cn)
        } else if a == 'H' && b == 'K' {
            assert(s@ =~= "HK"@);
            Some(Region::Hk)
        } else if a == 'U' && b == 'S' {
            assert(s@ =~= "US"@);
            Some(Region::Us)
        } else {
            assert(s@ != "CN"@ && s@ != "HK"@ && s@ != "US"@) by {
                if s@ == "CN"@ { assert(s@[0] == 'C' && s@[1] == 'N'); }
                if s@ == "HK"@ { assert(s@[0] == 'H' && s@[1] == 'K'); }
                if s@ == "US"@ { assert(s@[0] == 'U' && s@[1] == 'S'); }
            }
            None
        }
    }

    /// Time zone of the region's primary exchange(s); every region has one.
    pub fn tz(self) -> (r: Option<TimeZone>)
        ensures
            r == Some(region_zone(self)),
    {
        match self {
            Region::Cn => Some(TimeZone::AsiaShanghai),
            Region::Hk => Some(TimeZone::AsiaHongKong),
            Region::Us => Some(TimeZone::AmericaNewYork),
        }
    }
}

/// Resolves the time zone of a region.
pub fn tz_for_region(region: Region) -> (r: Option<TimeZone>)
    ensures
        r == Some(region_zone(region)),
{
    region.tz()
}

/// The part of `s` after its last `.`; all of `s` when it has no `.`
/// (what `s.rsplit('.').next()` yields).
pub open spec fn last_segment(s: Seq<char>) -> Seq<char>
    decreases s.len(),
{
    if s.len() == 0 {
        s
    } else if s.last() == '.' {
        Seq::empty()
    } else {
        last_segment(s.drop_last()).push(s.last())
    }
}

/// The region named by an exchange suffix.
pub open spec fn region_of_suffix(suffix: Seq<char>) -> Option<Region> {
    if suffix == "SH"@ || suffix == "SZ"@ || suffix == "BJ"@ {
        Some(Region::Cn)
    } else if suffix == "US"@ {
        Some(Region::Us)
    } else if suffix == "HK"@ {
        Some(Region::Hk)
    } else {
        None
    }
}

/// The region that a symbol's exchange suffix names.
pub open spec fn symbol_region(s: Seq<char>) -> Option<Region> {
    region_of_suffix(last_segment(s))
}

/// A symbol is accepted when it is non-empty and carries a `.` before its
/// region suffix.
pub open spec fn valid_symbol(s: Seq<char>) -> bool {
    s.len() > 0 && s.contains('.')
}

proof fn lemma_last_segment_from(s: Seq<char>, k: int)
    requires
        0 <= k <= s.len(),
        k == 0 || s[k - 1] == '.',
        forall|j: int| k <= j < s.len() ==> s[j] != '.',
    ensures
        last_segment(s) == s.subrange(k, s.len() as int),
    decreases s.len(),
{
    if s.len() == k {
        if k == 0 {
            assert(s.subrange(0, 0) =~= s);
        } else {
            assert(s.last() == '.');
            assert(s.subrange(k, k) =~= Seq::<char>::empty());
        }
    } else {
        assert(s.last() != '.');
        let t = s.drop_last();
        assert forall|j: int| k <= j < t.len() implies t[j] != '.' by {
            assert(t[j] == s[j]);
        }
        if k > 0 {
            assert(t[k - 1] == s[k - 1]);
        }
        lemma_last_segment_from(t, k);
        assert(s.subrange(k, s.len() as int) =~= t.subrange(k, t.len() as int).push(s.last()));
    }
}

/// Maps a symbol's exchange suffix (the part after its last `.`) to a
/// [`Region`]: `SH`, `SZ` and `BJ` are mainland China, `US` the United
/// States, `HK` Hong Kong.
pub fn region_for_symbol(symbol: &str) -> (r: Option<Region>)
    ensures
        r == symbol_region(symbol@),
{
    let cs = chars_of(symbol);
    let n = cs.len();
    let mut k: usize = n;
    while k > 0 && cs[k - 1] != '.'
        invariant
            cs@ == symbol@,
            n == cs.len(),
            k <= n,
            forall|j: int| k <= j < n ==> cs@[j] != '.',
        decreases k,
    {
        k = k - 1;
    }
    proof {
        lemma_last_segment_from(symbol@, k as int);
        reveal_strlit("SH");
        reveal_strlit("SZ");
        reveal_strlit("BJ");
        reveal_strlit("US");
        reveal_strlit("HK");
    }
    let ghost seg = symbol@.subrange(k as int, n as int);
    if n - k != 2 {
        assert(seg.len() != 2);
        return None;
    }
    let a = cs[k];
    let b = cs[k + 1];
    assert(seg[0] == a && seg[1] == b);
    if a == 'S' && (b == 'H' || b == 'Z') {
        assert(seg =~= "SH"@ || seg =~= "SZ"@);
        Some(Region::Cn)
    } else if a == 'B' && b == 'J' {
        assert(seg =~= "BJ"@);
        Some(Region::Cn)
    } else if a == 'U' && b == 'S' {
        assert(seg =~= "US"@);
        Some(Region::Us)
    } else if a == 'H' && b == 'K' {
        assert(seg =~= "HK"@);
        Some(Region::Hk)
    } else {
        assert(region_of_suffix(seg) == None::<Region>) by {
            if seg == "SH"@ { assert(seg[0] == 'S' && seg[1] == 'H'); }
            if seg == "SZ"@ { assert(seg[0] == 'S' && seg[1] == 'Z'); }
            if seg == "BJ"@ { assert(seg[0] == 'B' && seg[1] == 'J'); }
            if seg == "US"@ { assert(seg[0] == 'U' && seg[1] == 'S'); }
            if seg == "HK"@ { assert(seg[0] == 'H' && seg[1] == 'K'); }
        }
        None
    }
}

/// The error that `validate` reports for `s`, if any.
pub open spec fn symbol_error(s: Seq<char>) -> Option<Seq<char>> {
    if s.len() == 0 {
        Some("symbol cannot be empty"@)
    } else if !s.contains('.') {
        Some("symbol missing region suffix: "@ + debug_quoted(s))
    } else {
        None
    }
}

/// Checks that `s` is non-empty and carries a region suffix.
pub fn validate(s: &str) -> (r: Result<(), Error>)
    ensures
        r is Ok <==> valid_symbol(s@),
        r is Ok <==> (s@.len() > 0 && s@.contains('.')),
        r matches Err(e) ==> e matches Error::Config(c) && symbol_error(s@) == Some(c.message@),
{
    if s.is_empty() {
        return Err(Error::Config(ConfigError::new("symbol cannot be empty")));
    }
    if !contains_char(s, '.') {
        let mut message = String::from_str("symbol missing region suffix: ");
        let quoted = debug_quote(s);
        message.append(quoted.as_str());
        return Err(Error::Config(ConfigError { message }));
    }
    Ok(())
}

/// A validated instrument symbol such as `600000.SH`.
#[derive(Debug, PartialEq, Eq, Hash)]
pub struct Symbol(String);

impl Clone for Symbol {
    fn clone(&self) -> (r: Self)
        ensures
            r@ == self@,
    {
        proof {
            use_type_invariant(self);
        }
        Symbol(self.0.clone())
    }
}

impl View for Symbol {
    type V = Seq<char>;

    closed spec fn view(&self) -> Seq<char> {
        self.0@
    }
}

impl Symbol {
    #[verifier::type_invariant]
    closed spec fn wf(self) -> bool {
        valid_symbol(self.0@)
    }

    /// Validates `s` and wraps it.
    pub fn new(s: &str) -> (r: Result<Symbol, Error>)
        ensures
            r is Ok <==> valid_symbol(s@),
            r is Ok <==> (s@.len() > 0 && s@.contains('.')),
            r matches Ok(sym) ==> sym@ == s@,
            r matches Err(e) ==> e matches Error::Config(c) && symbol_error(s@) == Some(c.message@),
    {
        validate(s)?;
        Ok(Symbol(s.to_owned()))
    }

    /// The symbol's text.
    pub fn as_str(&self) -> (r: &str)
        ensures
            r@ == self@,
            valid_symbol(r@),
    {
        proof {
            use_type_invariant(self);
        }
        self.0.as_str()
    }

    /// The symbol's text, taking ownership.
    pub fn into_string(self) -> (r: String)
        ensures
            r@ == self@,
            valid_symbol(r@),
    {
        proof {
            use_type_invariant(&self);
        }
        self.0
    }

    /// Market region derived from the symbol's exchange suffix, or `None`
    /// when TickFlow does not recognise the suffix.
    pub fn region(&self) -> (r: Option<Region>)
        ensures
            r == symbol_region(self@),
    {
        region_for_symbol(self.0.as_str())
    }

    /// Time zone of the market this symbol trades in.
    pub fn tz(&self) -> (r: Option<TimeZone>)
        ensures
            r == (match symbol_region(self@) {
                Some(region) => Some(region_zone(region)),
                None => None,
            }),
    {
        match self.region() {
            Some(region) => tz_for_region(region),
            None => None,
        }
    }
}

impl From<Region> for &'static str {
    fn from(val: Region) -> (r: &'static str) {
        val.as_str()
    }
}

impl vstd::std_specs::convert::FromSpecImpl<Region> for &'static str {
    open spec fn obeys_from_spec() -> bool {
        true
    }

    open spec fn from_spec(v: Region) -> &'static str {
        region_str(v)
    }
}

impl From<Symbol> for String {
    fn from(s: Symbol) -> (r: String) {
        s.0
    }
}

impl vstd::std_specs::convert::FromSpecImpl<Symbol> for String {
    open spec fn obeys_from_spec() -> bool {
        true
    }

    closed spec fn from_spec(v: Symbol) -> String {
        v.0
    }
}

impl<'a> From<&'a Symbol> for String {
    fn from(s: &'a Symbol) -> (r: String) {
        s.0.clone()
    }
}

impl<'a> vstd::std_specs::convert::FromSpecImpl<&'a Symbol> for String {
    open spec fn obeys_from_spec() -> bool {
        true
    }

    closed spec fn from_spec(v: &'a Symbol) -> String {
        v.0
    }
}

} // verus!
