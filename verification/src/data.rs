//! Common data types: faders, buttons, and the label and path
//! conventions that name them.

use vstd::prelude::*;

use crate::meters::MeterKind;

verus! {

/// The kind of strip a fader addresses on the console.
#[derive(Debug, Clone, Copy, PartialEq, Eq, Structural)]
pub enum FaderType {
    Channel,
    Aux,
    Bus,
    Main,
    Matrix,
    DCA,
}

/// Which parameter of a strip a path addresses.
#[derive(Debug, Clone, Copy, PartialEq, Eq, Structural)]
pub enum PathType {
    Fader,
    Panning,
    Mute,
    ScribbleColour,
    ScribbleName,
    ScribbleLed,
}

/// Why a fader label was rejected.
#[derive(Debug, Clone, Copy, PartialEq, Eq, Structural)]
pub enum LabelError {
    /// The label is not a word, optional spaces and an optional index.
    InvalidFormat,
    /// The word names no known fader type.
    UnknownFaderType,
    /// The label carries no index.
    MissingIndex,
    /// The index does not fit an 8-bit strip number.
    InvalidIndex,
}

/// Why a button label was rejected.
#[derive(Debug, Clone, Copy, PartialEq, Eq, Structural)]
pub enum ButtonError {
    /// The label names no known internal function.
    UnknownFunction,
}

/// A word character of a label: ASCII letter, digit or underscore.
pub open spec fn is_word_char(c: char) -> bool {
    let u = c as u32;
    (48 <= u && u <= 57) || (65 <= u && u <= 90) || (97 <= u && u <= 122) || u == 95
}

/// An ASCII whitespace character.
pub open spec fn is_space_char(c: char) -> bool {
    let u = c as u32;
    u == 32 || (9 <= u && u <= 13)
}

/// An ASCII decimal digit.
pub open spec fn is_digit_char(c: char) -> bool {
    48 <= c as u32 && c as u32 <= 57
}

/// End of the run of word characters starting at `i`.
pub open spec fn scan_word(s: Seq<char>, i: int) -> int
    decreases s.len() - i,
{
    if 0 <= i < s.len() && is_word_char(s[i]) {
        scan_word(s, i + 1)
    } else {
        i
    }
}

/// End of the run of whitespace characters starting at `i`.
pub open spec fn scan_space(s: Seq<char>, i: int) -> int
    decreases s.len() - i,
{
    if 0 <= i < s.len() && is_space_char(s[i]) {
        scan_space(s, i + 1)
    } else {
        i
    }
}

/// End of the run of digit characters starting at `i`.
pub open spec fn scan_digits(s: Seq<char>, i: int) -> int
    decreases s.len() - i,
{
    if 0 <= i < s.len() && is_digit_char(s[i]) {
        scan_digits(s, i + 1)
    } else {
        i
    }
}

/// End of the leading word of a label.
pub open spec fn label_word_end(s: Seq<char>) -> int {
    scan_word(s, 0)
}

/// Start of the trailing index digits of a label.
pub open spec fn label_digits_start(s: Seq<char>) -> int {
    scan_space(s, label_word_end(s))
}

/// A label is well-formed when it is one word, then optional spaces,
/// then an optional index of digits, and nothing else.
pub open spec fn label_format_ok(s: Seq<char>) -> bool {
    label_word_end(s) > 0 && scan_digits(s, label_digits_start(s)) == s.len()
}

/// The leading word of a well-formed label.
pub open spec fn label_base(s: Seq<char>) -> Seq<char> {
    s.subrange(0, label_word_end(s))
}

/// The trailing index digits of a well-formed label (possibly empty).
pub open spec fn label_digits(s: Seq<char>) -> Seq<char> {
    s.subrange(label_digits_start(s), s.len() as int)
}

/// The code of `u` with an ASCII capital folded to lower case.
pub open spec fn ascii_lower(u: u32) -> int {
    if 65 <= u && u <= 90 {
        u + 32
    } else {
        u as int
    }
}

/// ASCII-case-insensitive equality of two character sequences.
pub open spec fn matches_ci(s: Seq<char>, kw: Seq<char>) -> bool {
    s.len() == kw.len() && forall|i: int|
        0 <= i < s.len() ==> ascii_lower(s[i] as u32) == ascii_lower(kw[i] as u32)
}

/// The fader type a label word names, if any.
pub open spec fn spec_fader_type(base: Seq<char>) -> Option<FaderType> {
    if matches_ci(base, "channel"@) || matches_ci(base, "ch"@) || matches_ci(base, "chan"@) {
        Some(FaderType::Channel)
    } else if matches_ci(base, "aux"@) {
        Some(FaderType::Aux)
    } else if matches_ci(base, "bus"@) {
        Some(FaderType::Bus)
    } else if matches_ci(base, "main"@) || matches_ci(base, "lr"@) {
        Some(FaderType::Main)
    } else if matches_ci(base, "matrix"@) || matches_ci(base, "mtx"@) {
        Some(FaderType::Matrix)
    } else if matches_ci(base, "dca"@) {
        Some(FaderType::DCA)
    } else {
        None
    }
}

/// The path directory prefix for a fader type.
pub open spec fn dir_prefix(t: FaderType) -> Seq<char> {
    match t {
        FaderType::Channel => "/ch/"@,
        FaderType::Aux => "/aux/"@,
        FaderType::Bus => "/bus/"@,
        FaderType::Main => "/main/"@,
        FaderType::Matrix => "/mtx/"@,
        FaderType::DCA => "/dca/"@,
    }
}

/// The console meter that tracks a strip of this type and number.
pub open spec fn meter_for(t: FaderType, n: u8) -> MeterKind {
    match t {
        FaderType::Channel => MeterKind::Channel(n),
        FaderType::Aux => MeterKind::Aux(n),
        FaderType::Bus => MeterKind::Bus(n),
        FaderType::Main => MeterKind::Main(n),
        FaderType::Matrix => MeterKind::Matrix(n),
        FaderType::DCA => MeterKind::Dca(n),
    }
}

/// The numeric value of a run of decimal digits.
pub open spec fn digits_val(s: Seq<char>) -> int
    decreases s.len(),
{
    if s.len() == 0 {
        0
    } else {
        digits_val(s.drop_last()) * 10 + (s.last() as u32 - 48)
    }
}

/// The suffix `get_osc_path` appends to the fader's directory for each
/// parameter; the scribble LED is addressed without a separator.
pub open spec fn path_suffix(t: PathType) -> Seq<char> {
    match t {
        PathType::Fader => "/fdr"@,
        PathType::Panning => "/pan"@,
        PathType::Mute => "/mute"@,
        PathType::ScribbleColour => "/$col"@,
        PathType::ScribbleName => "/$name"@,
        PathType::ScribbleLed => "led"@,
    }
}

/// The parameter a path word names, if any.
pub open spec fn spec_word_type(w: Seq<char>) -> Option<PathType> {
    if w == "fdr"@ {
        Some(PathType::Fader)
    } else if w == "pan"@ {
        Some(PathType::Panning)
    } else if w == "mute"@ {
        Some(PathType::Mute)
    } else if w == "$col"@ {
        Some(PathType::ScribbleColour)
    } else if w == "$name"@ {
        Some(PathType::ScribbleName)
    } else if w == "led"@ {
        Some(PathType::ScribbleLed)
    } else {
        None
    }
}

/// A label names a fader when it is well-formed, its word names a
/// fader type, and it carries an index that fits a strip number.
pub open spec fn fader_label_valid(s: Seq<char>) -> bool {
    &&& label_format_ok(s)
    &&& spec_fader_type(label_base(s)) is Some
    &&& label_digits(s).len() > 0
    &&& 0 <= digits_val(label_digits(s)) <= 255
}

/// The fader a valid label describes.
pub open spec fn fader_matches_label(f: Fader, s: Seq<char>) -> bool {
    spec_fader_type(label_base(s)) matches Some(t) && {
        &&& f.osc_dir() == dir_prefix(t) + label_digits(s)
        &&& f.fader_type_spec() == t
        &&& f.meter_spec() == Some(meter_for(t, digits_val(label_digits(s)) as u8))
    }
}

/// Index of the last `/` in a sequence, or -1 when there is none.
pub open spec fn last_slash(s: Seq<char>) -> int
    decreases s.len(),
{
    if s.len() == 0 {
        -1
    } else if s.last() == '/' {
        s.len() - 1
    } else {
        last_slash(s.drop_last())
    }
}

/// One fader on a control surface, bound to a strip of the console.
#[derive(Debug, PartialEq)]
pub struct Fader {
    osc_directory: String,
    fader_type: FaderType,
    wing_meter: Option<MeterKind>,
}

impl Clone for Fader {
    fn clone(&self) -> (r: Self)
        ensures
            r == *self,
    {
        Fader {
            osc_directory: self.osc_directory.clone(),
            fader_type: self.fader_type,
            wing_meter: self.wing_meter,
        }
    }
}

impl DeepView for Fader {
    type V = Fader;

    open spec fn deep_view(&self) -> Fader {
        *self
    }
}

impl Fader {
    /// The path directory this fader's parameters live under.
    pub closed spec fn osc_dir(&self) -> Seq<char> {
        self.osc_directory@
    }

    /// The kind of strip this fader addresses.
    pub closed spec fn fader_type_spec(&self) -> FaderType {
        self.fader_type
    }

    /// The console meter that tracks this fader's strip, if any.
    pub closed spec fn meter_spec(&self) -> Option<MeterKind> {
        self.wing_meter
    }

    /// The full path of one of this fader's parameters.
    pub fn get_osc_path(&self, path_type: PathType) -> (r: String)
        ensures
            r@ == self.osc_dir() + path_suffix(path_type),
    {
        match path_type {
            PathType::Fader => self.osc_directory.clone().concat("/fdr"),
            PathType::Panning => self.osc_directory.clone().concat("/pan"),
            PathType::Mute => self.osc_directory.clone().concat("/mute"),
            PathType::ScribbleColour => self.osc_directory.clone().concat("/$col"),
            PathType::ScribbleName => self.osc_directory.clone().concat("/$name"),
            PathType::ScribbleLed => self.osc_directory.clone().concat("led"),
        }
    }

    /// Which of this fader's parameters a path addresses: everything
    /// before the last `/` must be this fader's directory, and what
    /// follows names the parameter.
    pub open spec fn spec_path_matches(&self, s: Seq<char>) -> Option<PathType> {
        let ls = last_slash(s);
        if ls >= 0 && s.subrange(0, ls) == self.osc_dir() {
            spec_word_type(s.subrange(ls + 1, s.len() as int))
        } else {
            None
        }
    }

    /// Which of this fader's parameters a path addresses.
    pub fn path_matches(&self, osc_path: &str) -> (r: Option<PathType>)
        ensures
            r == self.spec_path_matches(osc_path@),
    {
        let len = osc_path.unicode_len();
        let ghost s = osc_path@;

        // Find the last '/' in the path.
        let mut k: usize = 0;
        let mut slash: usize = 0;
        let mut has_slash = false;
        while k < len
            invariant
                k <= len,
                len == s.len(),
                s == osc_path@,
                has_slash ==> slash < k && s[slash as int] == '/' && forall|j: int|
                    slash < j < k ==> s[j] != '/',
                !has_slash ==> forall|j: int| 0 <= j < k ==> s[j] != '/',
            decreases len - k,
        {
            if osc_path.get_char(k) == '/' {
                slash = k;
                has_slash = true;
            }
            k = k + 1;
        }
        if !has_slash {
            proof {
                lemma_no_slash(s);
            }
            return None;
        }
        proof {
            lemma_last_slash_at(s, slash as int);
        }

        let prefix: String = osc_path.substring_char(0, slash).to_owned();
        if !(prefix == self.osc_directory) {
            return None;
        }

        let suffix: String = osc_path.substring_char(slash + 1, len).to_owned();
        let ghost sfx = s.subrange(slash + 1, s.len() as int);
        if suffix == String::from_str("fdr") {
            Some(PathType::Fader)
        } else if suffix == String::from_str("pan") {
            Some(PathType::Panning)
        } else if suffix == String::from_str("mute") {
            Some(PathType::Mute)
        } else if suffix == String::from_str("$col") {
            Some(PathType::ScribbleColour)
        } else if suffix == String::from_str("$name") {
            Some(PathType::ScribbleName)
        } else if suffix == String::from_str("led") {
            Some(PathType::ScribbleLed)
        } else {
            assert(spec_word_type(sfx) is None);
            None
        }
    }

    /// The console meter that tracks this fader's strip, if any.
    pub fn get_meter(&self) -> (r: Option<MeterKind>)
        ensures
            r == self.meter_spec(),
    {
        self.wing_meter
    }

    /// Parse a fader from a human-readable label such as a strip kind
    /// followed by its number.  The word may be written in any case;
    /// the number keeps its written digits in the path and must fit an
    /// 8-bit strip number.
    pub fn new_from_label(label: &str) -> (r: Result<Fader, LabelError>)
        ensures
            ({
                let s = label@;
                match r {
                    Ok(f) => fader_label_valid(s) && fader_matches_label(f, s),
                    Err(LabelError::InvalidFormat) => !label_format_ok(s),
                    Err(LabelError::UnknownFaderType) => label_format_ok(s) && spec_fader_type(
                        label_base(s),
                    ) is None,
                    Err(LabelError::MissingIndex) => label_format_ok(s) && spec_fader_type(
                        label_base(s),
                    ) is Some && label_digits(s).len() == 0,
                    Err(LabelError::InvalidIndex) => label_format_ok(s) && spec_fader_type(
                        label_base(s),
                    ) is Some && label_digits(s).len() > 0 && digits_val(label_digits(s)) > 255,
                }
            }),
    {
        let len = label.unicode_len();
        let ghost s = label@;

        // One word, then optional spaces, then an optional index, then
        // nothing: anything else is rejected.
        let w = scan_word_exec(label, 0);
        let sp = scan_space_exec(label, w);
        let d = scan_digits_exec(label, sp);
        if w == 0 || d != len {
            return Err(LabelError::InvalidFormat);
        }

        let base: String = label.substring_char(0, w).to_owned();
        let fader_type: FaderType = if str_matches_ci(base.as_str(), "channel") || str_matches_ci(
            base.as_str(),
            "ch",
        ) || str_matches_ci(base.as_str(), "chan") {
            FaderType::Channel
        } else if str_matches_ci(base.as_str(), "aux") {
            FaderType::Aux
        } else if str_matches_ci(base.as_str(), "bus") {
            FaderType::Bus
        } else if str_matches_ci(base.as_str(), "main") || str_matches_ci(base.as_str(), "lr") {
            FaderType::Main
        } else if str_matches_ci(base.as_str(), "matrix") || str_matches_ci(base.as_str(), "mtx") {
            FaderType::Matrix
        } else if str_matches_ci(base.as_str(), "dca") {
            FaderType::DCA
        } else {
            return Err(LabelError::UnknownFaderType);
        };
        assert(spec_fader_type(label_base(s)) == Some(fader_type));

        if sp == len {
            return Err(LabelError::MissingIndex);
        }
        let digits: String = label.substring_char(sp, len).to_owned();
        let ghost dig = label_digits(s);
        assert(digits@ == dig);
        assert(forall|i: int| 0 <= i < dig.len() ==> is_digit_char(#[trigger] dig[i])) by {
            assert forall|i: int| 0 <= i < dig.len() implies is_digit_char(#[trigger] dig[i]) by {
                lemma_scan_digits_chars(s, sp as int, len as int);
                assert(dig[i] == s[sp + i]);
            }
        }

        let num = match parse_index(digits.as_str()) {
            Some(n) => n,
            None => {
                return Err(LabelError::InvalidIndex);
            },
        };

        let osc_directory: String = match fader_type {
            FaderType::Channel => String::from_str("/ch/").concat(digits.as_str()),
            FaderType::Aux => String::from_str("/aux/").concat(digits.as_str()),
            FaderType::Bus => String::from_str("/bus/").concat(digits.as_str()),
            FaderType::Main => String::from_str("/main/").concat(digits.as_str()),
            FaderType::Matrix => String::from_str("/mtx/").concat(digits.as_str()),
            FaderType::DCA => String::from_str("/dca/").concat(digits.as_str()),
        };

        let wing_meter = Some(
            match fader_type {
                FaderType::Channel => MeterKind::Channel(num),
                FaderType::Aux => MeterKind::Aux(num),
                FaderType::Bus => MeterKind::Bus(num),
                FaderType::Main => MeterKind::Main(num),
                FaderType::Matrix => MeterKind::Matrix(num),
                FaderType::DCA => MeterKind::Dca(num),
            },
        );

        Ok(Fader { osc_directory, fader_type, wing_meter })
    }
}

/// A button bound directly to a console parameter path.
#[derive(Debug, Clone, PartialEq)]
pub struct OscButton {
    pub osc_name: String,
}

impl OscButton {
    /// A button named by its parameter path, written as given.
    pub fn new_from_label(label: &str) -> (r: Result<OscButton, ButtonError>)
        ensures
            r matches Ok(b) && b.osc_name@ == label@,
    {
        Ok(OscButton { osc_name: label.to_owned() })
    }
}

/// A function of the hub itself, not of the console.
#[derive(Debug, Clone, Copy, PartialEq, Eq, Structural)]
pub enum InternalFunction {
    PreviousBank,
    NextBank,
}

/// A button bound to an internal function.
#[derive(Debug, Clone, Copy, PartialEq, Eq, Structural)]
pub struct InternalButton {
    pub function: InternalFunction,
}

impl InternalButton {
    /// Parse an internal button from its label, in any case.
    pub fn new_from_label(label: &str) -> (r: Result<InternalButton, ButtonError>)
        ensures
            matches_ci(label@, "previous bank"@) ==> r == Ok::<InternalButton, ButtonError>(
                InternalButton { function: InternalFunction::PreviousBank },
            ),
            !matches_ci(label@, "previous bank"@) && matches_ci(label@, "next bank"@) ==> r == Ok::<
                InternalButton,
                ButtonError,
            >(InternalButton { function: InternalFunction::NextBank }),
            !matches_ci(label@, "previous bank"@) && !matches_ci(label@, "next bank"@) ==> r == Err::<
                InternalButton,
                ButtonError,
            >(ButtonError::UnknownFunction),
    {
        if str_matches_ci(label, "previous bank") {
            Ok(InternalButton { function: InternalFunction::PreviousBank })
        } else if str_matches_ci(label, "next bank") {
            Ok(InternalButton { function: InternalFunction::NextBank })
        } else {
            Err(ButtonError::UnknownFunction)
        }
    }

    /// A button bound to the given function.
    pub fn new(function: InternalFunction) -> (r: Self)
        ensures
            r.function == function,
    {
        InternalButton { function }
    }
}

/// Exec test for [`is_word_char`].
fn word_char(c: char) -> (b: bool)
    ensures
        b == is_word_char(c),
{
    let u = c as u32;
    (48 <= u && u <= 57) || (65 <= u && u <= 90) || (97 <= u && u <= 122) || u == 95
}

/// Exec test for [`is_space_char`].
fn space_char(c: char) -> (b: bool)
    ensures
        b == is_space_char(c),
{
    let u = c as u32;
    u == 32 || (9 <= u && u <= 13)
}

/// Exec test for [`is_digit_char`].
fn digit_char(c: char) -> (b: bool)
    ensures
        b == is_digit_char(c),
{
    let u = c as u32;
    48 <= u && u <= 57
}

proof fn lemma_scan_word_at(s: Seq<char>, i: int, r: int)
    requires
        0 <= i <= r <= s.len(),
        forall|j: int| i <= j < r ==> is_word_char(s[j]),
        r == s.len() || !is_word_char(s[r]),
    ensures
        scan_word(s, i) == r,
    decreases r - i,
{
    if i < r {
        lemma_scan_word_at(s, i + 1, r);
    }
}

proof fn lemma_scan_space_at(s: Seq<char>, i: int, r: int)
    requires
        0 <= i <= r <= s.len(),
        forall|j: int| i <= j < r ==> is_space_char(s[j]),
        r == s.len() || !is_space_char(s[r]),
    ensures
        scan_space(s, i) == r,
    decreases r - i,
{
    if i < r {
        lemma_scan_space_at(s, i + 1, r);
    }
}

proof fn lemma_scan_digits_at(s: Seq<char>, i: int, r: int)
    requires
        0 <= i <= r <= s.len(),
        forall|j: int| i <= j < r ==> is_digit_char(s[j]),
        r == s.len() || !is_digit_char(s[r]),
    ensures
        scan_digits(s, i) == r,
    decreases r - i,
{
    if i < r {
        lemma_scan_digits_at(s, i + 1, r);
    }
}

/// Every character passed over by a digit scan is a digit.
proof fn lemma_scan_digits_chars(s: Seq<char>, i: int, r: int)
    requires
        0 <= i <= s.len(),
        scan_digits(s, i) == r,
    ensures
        forall|j: int| i <= j < r ==> is_digit_char(s[j]),
    decreases s.len() - i,
{
    if 0 <= i < s.len() && is_digit_char(s[i]) {
        lemma_scan_digits_chars(s, i + 1, r);
    }
}

/// Exec scan of word characters, from `from` to the end of the run.
fn scan_word_exec(s: &str, from: usize) -> (r: usize)
    requires
        from <= s@.len(),
    ensures
        r == scan_word(s@, from as int),
        from <= r <= s@.len(),
{
    let len = s.unicode_len();
    let mut i: usize = from;
    while i < len && word_char(s.get_char(i))
        invariant
            from <= i <= len,
            len == s@.len(),
            forall|j: int| from <= j < i ==> is_word_char(s@[j]),
        decreases len - i,
    {
        i = i + 1;
    }
    proof {
        lemma_scan_word_at(s@, from as int, i as int);
    }
    i
}

/// Exec scan of whitespace characters, from `from` to the end of the run.
fn scan_space_exec(s: &str, from: usize) -> (r: usize)
    requires
        from <= s@.len(),
    ensures
        r == scan_space(s@, from as int),
        from <= r <= s@.len(),
{
    let len = s.unicode_len();
    let mut i: usize = from;
    while i < len && space_char(s.get_char(i))
        invariant
            from <= i <= len,
            len == s@.len(),
            forall|j: int| from <= j < i ==> is_space_char(s@[j]),
        decreases len - i,
    {
        i = i + 1;
    }
    proof {
        lemma_scan_space_at(s@, from as int, i as int);
    }
    i
}

/// Exec scan of digit characters, from `from` to the end of the run.
fn scan_digits_exec(s: &str, from: usize) -> (r: usize)
    requires
        from <= s@.len(),
    ensures
        r == scan_digits(s@, from as int),
        from <= r <= s@.len(),
{
    let len = s.unicode_len();
    let mut i: usize = from;
    while i < len && digit_char(s.get_char(i))
        invariant
            from <= i <= len,
            len == s@.len(),
            forall|j: int| from <= j < i ==> is_digit_char(s@[j]),
        decreases len - i,
    {
        i = i + 1;
    }
    proof {
        lemma_scan_digits_at(s@, from as int, i as int);
    }
    i
}

/// Exec test for [`matches_ci`].
fn str_matches_ci(s: &str, kw: &str) -> (b: bool)
    ensures
        b == matches_ci(s@, kw@),
{
    let n = s.unicode_len();
    let m = kw.unicode_len();
    if n != m {
        return false;
    }
    let mut i: usize = 0;
    while i < n
        invariant
            i <= n,
            n == s@.len(),
            n == kw@.len(),
            forall|j: int| 0 <= j < i ==> ascii_lower(s@[j] as u32) == ascii_lower(kw@[j] as u32),
        decreases n - i,
    {
        let a = lower_code(s.get_char(i));
        let b = lower_code(kw.get_char(i));
        if a != b {
            return false;
        }
        i = i + 1;
    }
    true
}

/// Exec fold of one character code to lower case.
fn lower_code(c: char) -> (u: u32)
    ensures
        u == ascii_lower(c as u32),
{
    let u = c as u32;
    if 65 <= u && u <= 90 {
        u + 32
    } else {
        u
    }
}

/// The value of a digit prefix never exceeds the value of the whole.
proof fn lemma_digits_val_nonneg(s: Seq<char>)
    requires
        forall|i: int| 0 <= i < s.len() ==> is_digit_char(#[trigger] s[i]),
    ensures
        digits_val(s) >= 0,
    decreases s.len(),
{
    if s.len() > 0 {
        lemma_digits_val_nonneg(s.drop_last());
    }
}

proof fn lemma_digits_val_prefix(s: Seq<char>, k: int)
    requires
        0 <= k <= s.len(),
        forall|i: int| 0 <= i < s.len() ==> is_digit_char(#[trigger] s[i]),
    ensures
        digits_val(s.subrange(0, k)) <= digits_val(s),
    decreases s.len() - k,
{
    if k < s.len() {
        lemma_digits_val_prefix(s, k + 1);
        let a = s.subrange(0, k);
        let b = s.subrange(0, k + 1);
        assert(b.drop_last() =~= a);
        assert(digits_val(b) == digits_val(a) * 10 + (b.last() as u32 - 48));
        assert(forall|i: int| 0 <= i < a.len() ==> is_digit_char(#[trigger] a[i]));
        lemma_digits_val_nonneg(a);
    } else {
        assert(s.subrange(0, k) =~= s);
    }
}

/// Parse a run of digits as an 8-bit index; `None` exactly when the
/// written value exceeds 255.
fn parse_index(digits: &str) -> (r: Option<u8>)
    requires
        digits@.len() > 0,
        forall|i: int| 0 <= i < digits@.len() ==> is_digit_char(#[trigger] digits@[i]),
    ensures
        match r {
            Some(n) => digits_val(digits@) == n as int,
            None => digits_val(digits@) > 255,
        },
{
    let len = digits.unicode_len();
    let ghost s = digits@;
    let mut val: u32 = 0;
    let mut i: usize = 0;
    while i < len
        invariant
            i <= len,
            len == s.len(),
            s == digits@,
            forall|j: int| 0 <= j < s.len() ==> is_digit_char(#[trigger] s[j]),
            val <= 255,
            val == digits_val(s.subrange(0, i as int)),
        decreases len - i,
    {
        let c = digits.get_char(i);
        assert(is_digit_char(s[i as int]));
        let d = (c as u32) - 48;
        let next = val * 10 + d;
        proof {
            assert(s.subrange(0, i + 1).drop_last() =~= s.subrange(0, i as int));
            assert(digits_val(s.subrange(0, i + 1)) == digits_val(s.subrange(0, i as int)) * 10 + (
            s[i as int] as u32 - 48));
        }
        if next > 255 {
            proof {
                lemma_digits_val_prefix(s, i + 1);
            }
            return None;
        }
        val = next;
        i = i + 1;
    }
    proof {
        assert(s.subrange(0, len as int) =~= s);
    }
    Some(val as u8)
}

/// The shape of a generated fader label: a keyword, one space, then
/// the index written in decimal without a leading zero.
pub open spec fn label_shape(s: Seq<char>, kw: Seq<char>, n: int) -> bool {
    &&& label_format_ok(s)
    &&& label_base(s) == kw
    &&& label_digits(s).len() > 0
    &&& forall|i: int| 0 <= i < label_digits(s).len() ==> is_digit_char(#[trigger] label_digits(s)[i])
    &&& digits_val(label_digits(s)) == n
    &&& label_digits(s)[0] != '0'
}

/// The value of a single digit.
pub proof fn lemma_digits_val_1(c: char)
    requires
        is_digit_char(c),
    ensures
        digits_val(seq![c]) == c as u32 - 48,
{
    assert(seq![c].drop_last() =~= Seq::<char>::empty());
    assert(digits_val(Seq::<char>::empty()) == 0);
}

/// The value of a two-digit run.
pub proof fn lemma_digits_val_2(c: char, d: char)
    requires
        is_digit_char(c),
        is_digit_char(d),
    ensures
        digits_val(seq![c, d]) == (c as u32 - 48) * 10 + (d as u32 - 48),
{
    assert(seq![c, d].drop_last() =~= seq![c]);
    lemma_digits_val_1(c);
}

/// How a word, one space and an index parse: the word is the base and
/// the index the digits.
pub proof fn lemma_label_concat_parse(kw: Seq<char>, ds: Seq<char>)
    requires
        kw.len() > 0,
        forall|i: int| 0 <= i < kw.len() ==> is_word_char(#[trigger] kw[i]),
        ds.len() > 0,
        forall|i: int| 0 <= i < ds.len() ==> is_digit_char(#[trigger] ds[i]),
    ensures
        ({
            let s = kw + seq![' '] + ds;
            &&& label_word_end(s) == kw.len()
            &&& label_base(s) == kw
            &&& label_digits_start(s) == kw.len() + 1
            &&& label_format_ok(s)
            &&& label_digits(s) == ds
        }),
{
    let s = kw + seq![' '] + ds;
    assert forall|i: int| 0 <= i < kw.len() implies is_word_char(s[i]) by {
        assert(s[i] == kw[i]);
    }
    assert(s[kw.len() as int] == ' ');
    assert(!is_word_char(' '));
    lemma_scan_word_at(s, 0, kw.len() as int);
    assert(s[kw.len() as int + 1] == ds[0]);
    assert(!is_space_char(ds[0]));
    lemma_scan_space_at(s, kw.len() as int, kw.len() as int + 1);
    assert forall|i: int| kw.len() as int + 1 <= i < s.len() implies is_digit_char(s[i]) by {
        assert(s[i] == ds[i - kw.len() as int - 1]);
    }
    lemma_scan_digits_at(s, kw.len() as int + 1, s.len() as int);
    assert(label_base(s) =~= kw);
    assert(label_digits(s) =~= ds);
}

/// What the fader-type keywords name.
pub proof fn lemma_fader_keywords()
    ensures
        spec_fader_type("Channel"@) == Some(FaderType::Channel),
        spec_fader_type("Aux"@) == Some(FaderType::Aux),
        spec_fader_type("Bus"@) == Some(FaderType::Bus),
        spec_fader_type("Main"@) == Some(FaderType::Main),
        spec_fader_type("Matrix"@) == Some(FaderType::Matrix),
        spec_fader_type("DCA"@) == Some(FaderType::DCA),
{
    reveal_strlit("Channel");
    reveal_strlit("channel");
    reveal_strlit("Aux");
    reveal_strlit("aux");
    reveal_strlit("Bus");
    reveal_strlit("bus");
    reveal_strlit("Main");
    reveal_strlit("main");
    reveal_strlit("Matrix");
    reveal_strlit("matrix");
    reveal_strlit("DCA");
    reveal_strlit("dca");
    reveal_strlit("ch");
    reveal_strlit("chan");
    reveal_strlit("lr");
    reveal_strlit("mtx");
    assert(matches_ci("Channel"@, "channel"@));
    assert(matches_ci("Aux"@, "aux"@));
    assert(!matches_ci("Aux"@, "channel"@));
    assert(!matches_ci("Aux"@, "ch"@));
    assert(!matches_ci("Aux"@, "chan"@));
    assert(matches_ci("Bus"@, "bus"@));
    assert(!matches_ci("Bus"@, "channel"@));
    assert(!matches_ci("Bus"@, "ch"@));
    assert(!matches_ci("Bus"@, "chan"@));
    assert(ascii_lower("Bus"@[0] as u32) != ascii_lower("aux"@[0] as u32));
    assert(!matches_ci("Bus"@, "aux"@));
    assert(matches_ci("Main"@, "main"@));
    assert(!matches_ci("Main"@, "channel"@));
    assert(!matches_ci("Main"@, "ch"@));
    assert(ascii_lower("Main"@[0] as u32) != ascii_lower("chan"@[0] as u32));
    assert(!matches_ci("Main"@, "chan"@));
    assert(!matches_ci("Main"@, "aux"@));
    assert(!matches_ci("Main"@, "bus"@));
    assert(matches_ci("Matrix"@, "matrix"@));
    assert(!matches_ci("Matrix"@, "channel"@));
    assert(!matches_ci("Matrix"@, "ch"@));
    assert(!matches_ci("Matrix"@, "chan"@));
    assert(!matches_ci("Matrix"@, "aux"@));
    assert(!matches_ci("Matrix"@, "bus"@));
    assert(!matches_ci("Matrix"@, "main"@));
    assert(!matches_ci("Matrix"@, "lr"@));
    assert(matches_ci("DCA"@, "dca"@));
    assert(!matches_ci("DCA"@, "channel"@));
    assert(!matches_ci("DCA"@, "ch"@));
    assert(!matches_ci("DCA"@, "chan"@));
    assert(ascii_lower("DCA"@[0] as u32) != ascii_lower("aux"@[0] as u32));
    assert(!matches_ci("DCA"@, "aux"@));
    assert(ascii_lower("DCA"@[0] as u32) != ascii_lower("bus"@[0] as u32));
    assert(!matches_ci("DCA"@, "bus"@));
    assert(!matches_ci("DCA"@, "main"@));
    assert(!matches_ci("DCA"@, "lr"@));
    assert(!matches_ci("DCA"@, "matrix"@));
    assert(ascii_lower("DCA"@[0] as u32) != ascii_lower("mtx"@[0] as u32));
    assert(!matches_ci("DCA"@, "mtx"@));
}

/// What the built-in button labels name.
pub proof fn lemma_button_keywords()
    ensures
        matches_ci("Previous Bank"@, "previous bank"@),
        !matches_ci("Next Bank"@, "previous bank"@),
        matches_ci("Next Bank"@, "next bank"@),
{
    reveal_strlit("Previous Bank");
    reveal_strlit("previous bank");
    reveal_strlit("Next Bank");
    reveal_strlit("next bank");
}

/// A sequence without `/` has no last slash.
proof fn lemma_no_slash(s: Seq<char>)
    requires
        forall|j: int| 0 <= j < s.len() ==> s[j] != '/',
    ensures
        last_slash(s) == -1,
    decreases s.len(),
{
    if s.len() > 0 {
        lemma_no_slash(s.drop_last());
    }
}

/// A `/` with none after it is the last slash.
proof fn lemma_last_slash_at(s: Seq<char>, i: int)
    requires
        0 <= i < s.len(),
        s[i] == '/',
        forall|j: int| i < j < s.len() ==> s[j] != '/',
    ensures
        last_slash(s) == i,
    decreases s.len(),
{
    if i == s.len() - 1 {
    } else {
        assert(s.drop_last()[i] == s[i]);
        lemma_last_slash_at(s.drop_last(), i);
    }
}

} // verus!
