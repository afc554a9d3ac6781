//! The strict `key=value` text of the inverse kinematics settings.
//!
//! Blank lines and lines whose first non-blank character is `#` are ignored.
//! Every other line holds exactly one `=` with a known, non-empty key before
//! it and a non-empty value after it, and each key occurs at most once. The
//! reader records, for each key, the line it stood on and its raw value; the
//! integer value of `max_iterations` is read here, the real-valued ones by
//! the caller.
use vstd::prelude::*;

use crate::text::{
    chars_of, decimal_string, decimal_text, lemma_split_after_first_piece, parse_unsigned, range_equals, range_text, split_on,
    split_ranges, trim, trim_range, unsigned_text_value,
};

verus! {

/// The keys of the settings text, in the order in which they are read.
#[derive(Clone, Copy, Debug, PartialEq, Eq, Structural)]
pub enum SettingKey {
    MaxIterations,
    PoseTolerance,
    StepTolerance,
    PositionWeight,
    OrientationWeight,
    MinimumBias,
}

impl SettingKey {
    /// The spelling of the key in the settings text.
    pub open spec fn key_text(self) -> Seq<char> {
        match self {
            SettingKey::MaxIterations => "max_iterations"@,
            SettingKey::PoseTolerance => "pose_tolerance"@,
            SettingKey::StepTolerance => "step_tolerance"@,
            SettingKey::PositionWeight => "position_weight"@,
            SettingKey::OrientationWeight => "orientation_weight"@,
            SettingKey::MinimumBias => "minimum_bias"@,
        }
    }

    /// The spelling of the key in the settings text.
    pub fn name(&self) -> (res: &'static str)
        ensures
            res@ == self.key_text(),
    {
        match self {
            SettingKey::MaxIterations => "max_iterations",
            SettingKey::PoseTolerance => "pose_tolerance",
            SettingKey::StepTolerance => "step_tolerance",
            SettingKey::PositionWeight => "position_weight",
            SettingKey::OrientationWeight => "orientation_weight",
            SettingKey::MinimumBias => "minimum_bias",
        }
    }
}

/// Why a settings text is refused.
#[derive(Clone, Debug, PartialEq)]
pub enum SettingsError {
    MalformedLine { line: usize },
    UnknownKey { line: usize, key: String },
    DuplicateKey { line: usize, key: String },
    MissingKey(&'static str),
    InvalidValue { line: usize, key: String },
    OutOfRange(&'static str),
}

impl SettingsError {
    /// The human-readable text of the error.
    pub open spec fn text(self) -> Seq<char> {
        match self {
            SettingsError::MalformedLine { line } => "設定ファイルの"@ + decimal_text(line as nat)
                + "行目がkey=value形式ではありません"@,
            SettingsError::UnknownKey { line, key } => "設定ファイルの"@ + decimal_text(
                line as nat,
            ) + "行目に未知のキーがあります: "@ + key@,
            SettingsError::DuplicateKey { line, key } => "設定ファイルの"@ + decimal_text(
                line as nat,
            ) + "行目でキーが重複しています: "@ + key@,
            SettingsError::MissingKey(key) => "設定キーがありません: "@ + key@,
            SettingsError::InvalidValue { line, key } => "設定ファイルの"@ + decimal_text(
                line as nat,
            ) + "行目の値が不正です: "@ + key@,
            SettingsError::OutOfRange(key) => "設定値は有限な正の値でなければなりません: "@
                + key@,
        }
    }

    /// The human-readable text of the error.
    pub fn message(&self) -> (res: String)
        ensures
            res@ == self.text(),
    {
        match self {
            SettingsError::MalformedLine { line } => {
                let mut res = line_prefix(*line);
                res.append("行目がkey=value形式ではありません");
                res
            },
            SettingsError::UnknownKey { line, key } => {
                let mut res = line_prefix(*line);
                res.append("行目に未知のキーがあります: ");
                res.append(key.as_str());
                res
            },
            SettingsError::DuplicateKey { line, key } => {
                let mut res = line_prefix(*line);
                res.append("行目でキーが重複しています: ");
                res.append(key.as_str());
                res
            },
            SettingsError::MissingKey(key) => {
                let mut res = String::from_str("設定キーがありません: ");
                res.append(key);
                res
            },
            SettingsError::InvalidValue { line, key } => {
                let mut res = line_prefix(*line);
                res.append("行目の値が不正です: ");
                res.append(key.as_str());
                res
            },
            SettingsError::OutOfRange(key) => {
                let mut res = String::from_str("設定値は有限な正の値でなければなりません: ");
                res.append(key);
                res
            },
        }
    }
}

/// `設定ファイルの<line>`.
fn line_prefix(line: usize) -> (res: String)
    ensures
        res@ == "設定ファイルの"@ + decimal_text(line as nat),
{
    let mut res = String::from_str("設定ファイルの");
    res.append(decimal_string(line).as_str());
    res
}

/// One `key=value` line: its number, counted from 1, and its trimmed value.
#[derive(Clone, Debug, PartialEq)]
pub struct SettingEntry {
    pub line: usize,
    pub value: String,
}

/// The entries of a settings text, one slot per key.
#[derive(Clone, Debug, PartialEq)]
pub struct SettingsTable {
    pub max_iterations: Option<SettingEntry>,
    pub pose_tolerance: Option<SettingEntry>,
    pub step_tolerance: Option<SettingEntry>,
    pub position_weight: Option<SettingEntry>,
    pub orientation_weight: Option<SettingEntry>,
    pub minimum_bias: Option<SettingEntry>,
}

impl SettingsTable {
    /// The slot of `key`.
    pub open spec fn entry(self, key: SettingKey) -> Option<SettingEntry> {
        match key {
            SettingKey::MaxIterations => self.max_iterations,
            SettingKey::PoseTolerance => self.pose_tolerance,
            SettingKey::StepTolerance => self.step_tolerance,
            SettingKey::PositionWeight => self.position_weight,
            SettingKey::OrientationWeight => self.orientation_weight,
            SettingKey::MinimumBias => self.minimum_bias,
        }
    }

    /// A table with every slot empty.
    pub fn empty() -> (res: Self)
        ensures
            forall|k: SettingKey| res.entry(k) is None,
    {
        SettingsTable {
            max_iterations: None,
            pose_tolerance: None,
            step_tolerance: None,
            position_weight: None,
            orientation_weight: None,
            minimum_bias: None,
        }
    }

    /// The slot of `key`.
    pub fn get(&self, key: SettingKey) -> (res: &Option<SettingEntry>)
        ensures
            *res == self.entry(key),
    {
        match key {
            SettingKey::MaxIterations => &self.max_iterations,
            SettingKey::PoseTolerance => &self.pose_tolerance,
            SettingKey::StepTolerance => &self.step_tolerance,
            SettingKey::PositionWeight => &self.position_weight,
            SettingKey::OrientationWeight => &self.orientation_weight,
            SettingKey::MinimumBias => &self.minimum_bias,
        }
    }

    fn set(&mut self, key: SettingKey, entry: SettingEntry)
        ensures
            final(self).entry(key) == Some(entry),
            forall|k: SettingKey| k != key ==> final(self).entry(k) == old(self).entry(k),
    {
        match key {
            SettingKey::MaxIterations => self.max_iterations = Some(entry),
            SettingKey::PoseTolerance => self.pose_tolerance = Some(entry),
            SettingKey::StepTolerance => self.step_tolerance = Some(entry),
            SettingKey::PositionWeight => self.position_weight = Some(entry),
            SettingKey::OrientationWeight => self.orientation_weight = Some(entry),
            SettingKey::MinimumBias => self.minimum_bias = Some(entry),
        }
    }
}

/// The key spelled `name`, if any.
pub open spec fn key_named(name: Seq<char>) -> Option<SettingKey> {
    if name == SettingKey::MaxIterations.key_text() {
        Some(SettingKey::MaxIterations)
    } else if name == SettingKey::PoseTolerance.key_text() {
        Some(SettingKey::PoseTolerance)
    } else if name == SettingKey::StepTolerance.key_text() {
        Some(SettingKey::StepTolerance)
    } else if name == SettingKey::PositionWeight.key_text() {
        Some(SettingKey::PositionWeight)
    } else if name == SettingKey::OrientationWeight.key_text() {
        Some(SettingKey::OrientationWeight)
    } else if name == SettingKey::MinimumBias.key_text() {
        Some(SettingKey::MinimumBias)
    } else {
        None
    }
}

/// What one line of a settings text says.
pub enum LineClass {
    /// Blank, or a comment.
    Ignored,
    /// A known key with its trimmed value.
    Entry(SettingKey, Seq<char>),
    /// Not one non-empty key, one `=` and one non-empty value.
    Malformed,
    /// Well formed, with the trimmed key that no setting has.
    Unknown(Seq<char>),
}

/// What the line `line` (without its line break) says.
pub open spec fn classify_line(line: Seq<char>) -> LineClass {
    let t = trim(line);
    if t.len() == 0 || t[0] == '#' {
        LineClass::Ignored
    } else {
        let fields = split_on(t, '=');
        if fields.len() != 2 {
            LineClass::Malformed
        } else {
            let key = trim(fields[0]);
            let value = trim(fields[1]);
            if key.len() == 0 || value.len() == 0 {
                LineClass::Malformed
            } else {
                match key_named(key) {
                    Some(k) => LineClass::Entry(k, value),
                    None => LineClass::Unknown(key),
                }
            }
        }
    }
}

/// The lines of a settings text: the pieces between line feeds. They are the
/// lines of `str::lines` except that a final empty piece is kept and a
/// carriage return before a line feed stays on its line; both are blank
/// once trimmed, so no outcome differs.
pub open spec fn source_lines(source: Seq<char>) -> Seq<Seq<char>> {
    split_on(source, '\n')
}

/// The key that the line sets, if it is an entry.
pub open spec fn entry_key(line: Seq<char>) -> Option<SettingKey> {
    match classify_line(line) {
        LineClass::Entry(k, _) => Some(k),
        _ => None,
    }
}

/// Whether line `i` (counted from 0) is refused: malformed, of an unknown
/// key, or of a key that an earlier line set.
pub open spec fn line_faulty(lines: Seq<Seq<char>>, i: int) -> bool {
    match classify_line(lines[i]) {
        LineClass::Ignored => false,
        LineClass::Malformed => true,
        LineClass::Unknown(_) => true,
        LineClass::Entry(k, _) => exists|j: int| 0 <= j < i && entry_key(lines[j]) == Some(k),
    }
}

/// Whether `e` is the error that reports the fault of line `i`.
pub open spec fn reports_fault(e: SettingsError, lines: Seq<Seq<char>>, i: int) -> bool {
    match classify_line(lines[i]) {
        LineClass::Ignored => false,
        LineClass::Malformed => e == SettingsError::MalformedLine { line: (i + 1) as usize },
        LineClass::Unknown(key) => e matches SettingsError::UnknownKey { line, key: k } && line
            == i + 1 && k@ == key,
        LineClass::Entry(key, _) => e matches SettingsError::DuplicateKey { line, key: k } && line
            == i + 1 && k@ == key.key_text(),
    }
}

/// Whether the slots of `table` hold exactly the entries among the first `n`
/// lines: each key that one of them sets with the number and value of that
/// line, and no other.
pub open spec fn holds_entries(table: SettingsTable, lines: Seq<Seq<char>>, n: int) -> bool {
    forall|k: SettingKey|
        match #[trigger] table.entry(k) {
            None => forall|j: int| 0 <= j < n ==> entry_key(lines[j]) != Some(k),
            Some(e) => 1 <= e.line <= n && classify_line(lines[e.line - 1]) == LineClass::Entry(
                k,
                e.value@,
            ),
        }
}

/// The shape of one line, by positions in the text.
enum LineShape {
    Ignored,
    Entry(SettingKey, usize, usize),
    Malformed,
    Unknown(usize, usize),
}

spec fn shape_matches(shape: LineShape, chars: Seq<char>, lo: int, hi: int) -> bool {
    let class = classify_line(chars.subrange(lo, hi));
    match shape {
        LineShape::Ignored => class == LineClass::Ignored,
        LineShape::Malformed => class == LineClass::Malformed,
        LineShape::Entry(k, a, b) => lo <= a <= b <= hi && class == LineClass::Entry(
            k,
            chars.subrange(a as int, b as int),
        ),
        LineShape::Unknown(a, b) => lo <= a <= b <= hi && class == LineClass::Unknown(
            chars.subrange(a as int, b as int),
        ),
    }
}

/// The key spelled by `chars[lo..hi]`, if any.
fn key_at(chars: &Vec<char>, lo: usize, hi: usize) -> (res: Option<SettingKey>)
    requires
        lo <= hi <= chars.len(),
    ensures
        res == key_named(chars@.subrange(lo as int, hi as int)),
{
    if range_equals(chars, lo, hi, SettingKey::MaxIterations.name()) {
        Some(SettingKey::MaxIterations)
    } else if range_equals(chars, lo, hi, SettingKey::PoseTolerance.name()) {
        Some(SettingKey::PoseTolerance)
    } else if range_equals(chars, lo, hi, SettingKey::StepTolerance.name()) {
        Some(SettingKey::StepTolerance)
    } else if range_equals(chars, lo, hi, SettingKey::PositionWeight.name()) {
        Some(SettingKey::PositionWeight)
    } else if range_equals(chars, lo, hi, SettingKey::OrientationWeight.name()) {
        Some(SettingKey::OrientationWeight)
    } else if range_equals(chars, lo, hi, SettingKey::MinimumBias.name()) {
        Some(SettingKey::MinimumBias)
    } else {
        None
    }
}

/// The shape of the line `chars[lo..hi]`.
fn classify_range(chars: &Vec<char>, lo: usize, hi: usize) -> (res: LineShape)
    requires
        lo <= hi <= chars.len(),
    ensures
        shape_matches(res, chars@, lo as int, hi as int),
{
    let (a, b) = trim_range(chars, lo, hi);
    let ghost t = chars@.subrange(a as int, b as int);
    if a == b || chars[a] == '#' {
        proof {
            assert(t.len() == 0 || t[0] == '#');
        }
        return LineShape::Ignored;
    }
    let fields = split_ranges(chars, a, b, '=');
    if fields.len() != 2 {
        return LineShape::Malformed;
    }
    let (k0, k1) = trim_range(chars, fields[0].0, fields[0].1);
    let (v0, v1) = trim_range(chars, fields[1].0, fields[1].1);
    if k0 == k1 || v0 == v1 {
        return LineShape::Malformed;
    }
    match key_at(chars, k0, k1) {
        Some(k) => LineShape::Entry(k, v0, v1),
        None => LineShape::Unknown(k0, k1),
    }
}

/// Reads the lines of a settings text into a table.
///
/// The text is refused at its first faulty line: a line that is not blank,
/// not a comment and not one `key=value` with a non-empty key and value
/// (`MalformedLine`), one of a key that no setting has (`UnknownKey`), or one
/// of a key that an earlier line set (`DuplicateKey`). Otherwise each slot
/// holds the line of its key, if there is one.
pub fn parse_setting_lines(source: &str) -> (res: Result<SettingsTable, SettingsError>)
    ensures
        match res {
            Ok(table) => (forall|i: int|
                0 <= i < source_lines(source@).len() ==> !line_faulty(source_lines(source@), i))
                && holds_entries(table, source_lines(source@), source_lines(source@).len() as int),
            Err(e) => exists|i: int|
                0 <= i < source_lines(source@).len() && line_faulty(source_lines(source@), i) && (
                forall|j: int| 0 <= j < i ==> !line_faulty(source_lines(source@), j))
                && reports_fault(e, source_lines(source@), i),
        },
{
    let chars = chars_of(source);
    let ghost lines = source_lines(source@);
    proof {
        assert(chars@.subrange(0, chars@.len() as int) =~= source@);
    }
    let ranges = split_ranges(&chars, 0, chars.len(), '\n');
    let mut table = SettingsTable::empty();
    let mut idx: usize = 0;
    while idx < ranges.len()
        invariant
            chars@ == source@,
            lines == source_lines(source@),
            ranges.len() == lines.len(),
            forall|k: int|
                #![trigger ranges@[k]]
                0 <= k < ranges.len() ==> 0 <= ranges@[k].0 <= ranges@[k].1 <= chars.len()
                    && chars@.subrange(ranges@[k].0 as int, ranges@[k].1 as int) == lines[k],
            idx <= ranges.len(),
            forall|j: int| 0 <= j < idx ==> !line_faulty(lines, j),
            holds_entries(table, lines, idx as int),
        decreases ranges.len() - idx,
    {
        let (lo, hi) = ranges[idx];
        let shape = classify_range(&chars, lo, hi);
        let ghost line = lines[idx as int];
        let line_number = idx + 1;
        proof {
            assert(chars@.subrange(lo as int, hi as int) == line);
        }
        match shape {
            LineShape::Ignored => {},
            LineShape::Malformed => {
                proof {
                    assert(line_faulty(lines, idx as int));
                    assert(reports_fault(
                        SettingsError::MalformedLine { line: line_number },
                        lines,
                        idx as int,
                    ));
                }
                return Err(SettingsError::MalformedLine { line: line_number });
            },
            LineShape::Unknown(a, b) => {
                let key = range_text(source, a, b);
                proof {
                    assert(line_faulty(lines, idx as int));
                }
                return Err(SettingsError::UnknownKey { line: line_number, key });
            },
            LineShape::Entry(k, a, b) => {
                if table.get(k).is_some() {
                    let ghost j = (table.entry(k)->0.line - 1) as int;
                    proof {
                        assert(entry_key(lines[j]) == Some(k));
                        assert(line_faulty(lines, idx as int));
                    }
                    return Err(
                        SettingsError::DuplicateKey {
                            line: line_number,
                            key: String::from_str(k.name()),
                        },
                    );
                }
                let value = range_text(source, a, b);
                table.set(k, SettingEntry { line: line_number, value });
            },
        }
        proof {
            assert forall|kk: SettingKey| #[trigger] table.entry(kk) is None implies forall|
                j: int,
            | 0 <= j < idx + 1 ==> entry_key(lines[j]) != Some(kk) by {
                assert(table.entry(kk) is None);
            }
        }
        idx = idx + 1;
    }
    Ok(table)
}

/// The entry of `key`, or `MissingKey` with the key's name.
pub fn lookup(values: &SettingsTable, key: SettingKey) -> (res: Result<
    &SettingEntry,
    SettingsError,
>)
    ensures
        match values.entry(key) {
            Some(e) => res == Ok::<&SettingEntry, SettingsError>(&e),
            None => res matches Err(SettingsError::MissingKey(name)) && name@ == key.key_text(),
        },
{
    match values.get(key) {
        Some(e) => Ok(e),
        None => Err(SettingsError::MissingKey(key.name())),
    }
}

/// The unsigned integer value of the setting `key`: `MissingKey` when no
/// line sets it, `InvalidValue` with the line and key when its value is not
/// the text of a `usize`.
pub fn parse_usize(values: &SettingsTable, key: SettingKey) -> (res: Result<usize, SettingsError>)
    ensures
        match values.entry(key) {
            None => res matches Err(SettingsError::MissingKey(name)) && name@ == key.key_text(),
            Some(e) => match unsigned_text_value(e.value@) {
                Some(v) => res == Ok::<usize, SettingsError>(v),
                None => res matches Err(SettingsError::InvalidValue { line, key: k }) && line
                    == e.line && k@ == key.key_text(),
            },
        },
{
    let entry = lookup(values, key)?;
    match parse_unsigned(entry.value.as_str()) {
        Some(v) => Ok(v),
        None => Err(
            SettingsError::InvalidValue { line: entry.line, key: String::from_str(key.name()) },
        ),
    }
}

/// The first setting out of its range: `max_iterations` when it is zero,
/// else the first real-valued setting, in reading order (pose tolerance,
/// step tolerance, position weight, orientation weight, minimum bias), whose
/// flag in `positive` says that it is not a finite positive number.
pub fn invalid_field(max_iterations: usize, positive: [bool; 5]) -> (res: Option<SettingKey>)
    ensures
        res == first_invalid_field(max_iterations, positive@),
{
    if max_iterations == 0 {
        Some(SettingKey::MaxIterations)
    } else if !positive[0] {
        Some(SettingKey::PoseTolerance)
    } else if !positive[1] {
        Some(SettingKey::StepTolerance)
    } else if !positive[2] {
        Some(SettingKey::PositionWeight)
    } else if !positive[3] {
        Some(SettingKey::OrientationWeight)
    } else if !positive[4] {
        Some(SettingKey::MinimumBias)
    } else {
        None
    }
}

/// The first setting out of its range, as `invalid_field` finds it.
pub open spec fn first_invalid_field(max_iterations: usize, positive: Seq<bool>) -> Option<
    SettingKey,
> {
    if max_iterations == 0 {
        Some(SettingKey::MaxIterations)
    } else if !positive[0] {
        Some(SettingKey::PoseTolerance)
    } else if !positive[1] {
        Some(SettingKey::StepTolerance)
    } else if !positive[2] {
        Some(SettingKey::PositionWeight)
    } else if !positive[3] {
        Some(SettingKey::OrientationWeight)
    } else if !positive[4] {
        Some(SettingKey::MinimumBias)
    } else {
        None
    }
}

/// `OutOfRange` with the name of the first setting out of its range, as
/// `invalid_field` finds it, or `Ok` when every setting is in range.
pub fn validate_ranges(max_iterations: usize, positive: [bool; 5]) -> (res: Result<
    (),
    SettingsError,
>)
    ensures
        match first_invalid_field(max_iterations, positive@) {
            None => res is Ok,
            Some(k) => res matches Err(SettingsError::OutOfRange(name)) && name@ == k.key_text(),
        },
{
    match invalid_field(max_iterations, positive) {
        None => Ok(()),
        Some(k) => Err(SettingsError::OutOfRange(k.name())),
    }
}

/// A blank or comment line put before a settings text changes nothing but
/// the line numbers: it is never faulty itself, every later line keeps
/// its classification and its fault, one line further down, and so the text
/// is accepted or refused as before, with the same entries.
pub proof fn lemma_leading_ignored_line(comment: Seq<char>, source: Seq<char>)
    requires
        !comment.contains('\n'),
        classify_line(comment) == LineClass::Ignored,
    ensures
        source_lines(comment + seq!['\n'] + source) == seq![comment] + source_lines(source),
        !line_faulty(source_lines(comment + seq!['\n'] + source), 0),
        forall|i: int|
            0 <= i < source_lines(source).len() ==> line_faulty(
                source_lines(comment + seq!['\n'] + source),
                i + 1,
            ) == #[trigger] line_faulty(source_lines(source), i),
{
    lemma_split_after_first_piece(comment, '\n', source);
    let lines = source_lines(source);
    let longer = source_lines(comment + seq!['\n'] + source);
    assert forall|i: int| 0 <= i < lines.len() implies line_faulty(longer, i + 1)
        == #[trigger] line_faulty(lines, i) by {
        assert(longer[i + 1] == lines[i]);
        match classify_line(lines[i]) {
            LineClass::Entry(k, _) => {
                if line_faulty(lines, i) {
                    let j = choose|j: int| 0 <= j < i && entry_key(lines[j]) == Some(k);
                    assert(longer[j + 1] == lines[j]);
                    assert(0 <= j + 1 < i + 1 && entry_key(longer[j + 1]) == Some(k));
                }
                if line_faulty(longer, i + 1) {
                    let j = choose|j: int| 0 <= j < i + 1 && entry_key(longer[j]) == Some(k);
                    assert(j != 0);
                    assert(longer[j] == lines[j - 1]);
                    assert(0 <= j - 1 < i && entry_key(lines[j - 1]) == Some(k));
                }
            },
            _ => {},
        }
    }
}

/// In a text without faulty lines no key is set twice, so each slot of the
/// table is the one line of its key.
pub proof fn lemma_accepted_keys_unique(lines: Seq<Seq<char>>)
    requires
        forall|i: int| 0 <= i < lines.len() ==> !line_faulty(lines, i),
    ensures
        forall|i: int, j: int|
            0 <= i < j < lines.len() && (#[trigger] entry_key(lines[i])) is Some ==> entry_key(
                lines[i],
            ) != #[trigger] entry_key(lines[j]),
{
    assert forall|i: int, j: int|
        0 <= i < j < lines.len() && (#[trigger] entry_key(lines[i])) is Some implies entry_key(
            lines[i],
        ) != #[trigger] entry_key(lines[j]) by {
        if entry_key(lines[i]) == entry_key(lines[j]) {
            assert(!line_faulty(lines, j));
        }
    }
}

impl SettingKey {
    /// The place of the key in reading order, from 0.
    pub open spec fn reading_position(self) -> int {
        match self {
            SettingKey::MaxIterations => 0,
            SettingKey::PoseTolerance => 1,
            SettingKey::StepTolerance => 2,
            SettingKey::PositionWeight => 3,
            SettingKey::OrientationWeight => 4,
            SettingKey::MinimumBias => 5,
        }
    }
}

/// Whether the setting `key` is out of its range: a zero iteration count,
/// or a real-valued setting whose flag in `positive` (reading order, without
/// the iteration count) says it is not a finite positive number.
pub open spec fn out_of_range(key: SettingKey, max_iterations: usize, positive: Seq<bool>) -> bool {
    if key == SettingKey::MaxIterations {
        max_iterations == 0
    } else {
        !positive[key.reading_position() - 1]
    }
}

/// The range check finds nothing exactly when the iteration count is
/// non-zero and all five real-valued settings are finite and positive;
/// otherwise it names a setting that is out of range and before which, in
/// reading order, every setting is in range.
pub proof fn lemma_invalid_field_is_first_out_of_range(max_iterations: usize, positive: Seq<bool>)
    requires
        positive.len() == 5,
    ensures
        first_invalid_field(max_iterations, positive) is None <==> max_iterations != 0 && forall|
            i: int,
        | 0 <= i < 5 ==> #[trigger] positive[i],
        first_invalid_field(max_iterations, positive) matches Some(k) ==> out_of_range(
            k,
            max_iterations,
            positive,
        ) && forall|other: SettingKey|
            other.reading_position() < k.reading_position() ==> !#[trigger] out_of_range(
                other,
                max_iterations,
                positive,
            ),
{
    if max_iterations != 0 && positive[0] && positive[1] && positive[2] && positive[3]
        && positive[4] {
        assert forall|i: int| 0 <= i < 5 implies #[trigger] positive[i] by {
            if i == 0 {
            } else if i == 1 {
            } else if i == 2 {
            } else if i == 3 {
            } else {
            }
        }
    }
}

} // verus!
