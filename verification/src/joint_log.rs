//! The joint layout of a joint angle log and the header line of its
//! whitespace-separated `.dat` file.
//!
//! A log fixes its column names from the first robot state it sees and from
//! then on accepts only states whose joints have the same names in the same
//! order.
use vstd::prelude::*;

verus! {

/// Why a joint angle log cannot record or be saved.
#[derive(Clone, Debug, PartialEq, Eq)]
pub enum LoggingError {
    JointLayoutChanged,
    Io(String),
}

impl LoggingError {
    /// The human-readable text of the error.
    pub open spec fn text(self) -> Seq<char> {
        match self {
            LoggingError::JointLayoutChanged => "記録中に能動関節の名前または順序が変化しました"@,
            LoggingError::Io(message) => "関節角度ログを保存できません: "@ + message@,
        }
    }

    /// The human-readable text of the error.
    pub fn message(&self) -> (res: String)
        ensures
            res@ == self.text(),
    {
        match self {
            LoggingError::JointLayoutChanged => String::from_str(
                "記録中に能動関節の名前または順序が変化しました",
            ),
            LoggingError::Io(message) => {
                let mut res = String::from_str("関節角度ログを保存できません: ");
                res.append(message.as_str());
                res
            },
        }
    }
}

/// Whether `actual` names the same joints as `expected`, in the same order.
pub open spec fn same_layout(expected: Seq<String>, actual: Seq<String>) -> bool {
    &&& actual.len() == expected.len()
    &&& forall|i: int| 0 <= i < actual.len() ==> (#[trigger] actual[i])@ == expected[i]@
}

/// Accepts a state whose joint names `actual` are the log's columns
/// `expected` in the same order, and refuses any other with
/// `JointLayoutChanged`.
pub fn check_joint_layout(expected: &[String], actual: &[String]) -> (res: Result<(), LoggingError>)
    ensures
        res is Ok <==> same_layout(expected@, actual@),
        res is Err ==> res == Err::<(), LoggingError>(LoggingError::JointLayoutChanged),
{
    if actual.len() != expected.len() {
        return Err(LoggingError::JointLayoutChanged);
    }
    let mut i: usize = 0;
    while i < actual.len()
        invariant
            actual@.len() == expected@.len(),
            i <= actual@.len(),
            forall|j: int| 0 <= j < i ==> (#[trigger] actual@[j])@ == expected@[j]@,
        decreases actual@.len() - i,
    {
        if actual[i] != expected[i] {
            return Err(LoggingError::JointLayoutChanged);
        }
        i = i + 1;
    }
    Ok(())
}

/// A log always accepts the joint layout it was created from.
pub proof fn lemma_layout_accepts_its_own_names(names: Seq<String>)
    ensures
        same_layout(names, names),
{
}

/// The header line of the `.dat` file of a log with columns `names`: the
/// time column `# time_s`, then one column `<name>_rad` per joint, separated
/// by single spaces.
pub open spec fn dat_header_text(names: Seq<String>) -> Seq<char>
    decreases names.len(),
{
    if names.len() == 0 {
        "# time_s"@
    } else {
        dat_header_text(names.drop_last()) + " "@ + names.last()@ + "_rad"@
    }
}

/// The header line of the `.dat` file of a log with columns `names`,
/// without its line break.
pub fn dat_header(names: &[String]) -> (res: String)
    ensures
        res@ == dat_header_text(names@),
{
    let mut res = String::from_str("# time_s");
    let mut i: usize = 0;
    proof {
        assert(names@.take(0) =~= Seq::<String>::empty());
    }
    while i < names.len()
        invariant
            i <= names@.len(),
            res@ == dat_header_text(names@.take(i as int)),
        decreases names@.len() - i,
    {
        res.append(" ");
        res.append(names[i].as_str());
        res.append("_rad");
        proof {
            assert(names@.take(i + 1).drop_last() =~= names@.take(i as int));
            assert(names@.take(i + 1).last() == names@[i as int]);
        }
        i = i + 1;
    }
    proof {
        assert(names@.take(names@.len() as int) =~= names@);
    }
    res
}

/// A state is accepted exactly when its joint names, as a sequence, are the
/// log's columns: same length and the same name at every position, so any
/// renaming or reordering is refused.
pub proof fn lemma_layout_is_name_sequence_equality(expected: Seq<String>, actual: Seq<String>)
    ensures
        same_layout(expected, actual) <==> actual.map_values(|s: String| s@)
            == expected.map_values(|s: String| s@),
{
    let a = actual.map_values(|s: String| s@);
    let e = expected.map_values(|s: String| s@);
    if same_layout(expected, actual) {
        assert(a =~= e);
    }
    if a == e {
        assert(a.len() == actual.len() && e.len() == expected.len());
        assert forall|i: int| 0 <= i < actual.len() implies (#[trigger] actual[i])@ == expected[i]@ by {
            assert(a[i] == actual[i]@);
            assert(e[i] == expected[i]@);
        }
        assert(same_layout(expected, actual));
    }
}

/// Adding a joint to the log adds its column at the end of the header.
pub proof fn lemma_header_appends_column(names: Seq<String>, name: String)
    ensures
        dat_header_text(names.push(name)) == dat_header_text(names) + " "@ + name@ + "_rad"@,
{
    assert(names.push(name).drop_last() =~= names);
}

/// The header of the first `i` joints begins the header of all of them.
pub proof fn lemma_header_prefix(names: Seq<String>, i: int)
    requires
        0 <= i <= names.len(),
    ensures
        dat_header_text(names.take(i)).len() <= dat_header_text(names).len(),
        dat_header_text(names) .subrange(0, dat_header_text(names.take(i)).len() as int)
            == dat_header_text(names.take(i)),
    decreases names.len() - i,
{
    if i == names.len() {
        assert(names.take(i) =~= names);
        assert(dat_header_text(names).subrange(0, dat_header_text(names).len() as int)
            =~= dat_header_text(names));
    } else {
        lemma_header_prefix(names, i + 1);
        let short = dat_header_text(names.take(i));
        let longer = dat_header_text(names.take(i + 1));
        assert(names.take(i + 1).drop_last() =~= names.take(i));
        assert(longer == short + " "@ + names[i]@ + "_rad"@);
        let whole = dat_header_text(names);
        assert(whole.subrange(0, short.len() as int) =~= longer.subrange(0, short.len() as int));
        assert(longer.subrange(0, short.len() as int) =~= short);
    }
}

/// Column `i + 1` of the header, right after the header of the first `i`
/// joints, is ` <name of joint i>_rad`: every joint names its own column,
/// in order.
pub proof fn lemma_header_column(names: Seq<String>, i: int)
    requires
        0 <= i < names.len(),
    ensures
        ({
            let start = dat_header_text(names.take(i)).len() as int;
            let field = " "@ + names[i]@ + "_rad"@;
            &&& start + field.len() <= dat_header_text(names).len()
            &&& dat_header_text(names).subrange(start, start + field.len()) == field
        }),
{
    lemma_header_prefix(names, i + 1);
    let short = dat_header_text(names.take(i));
    let longer = dat_header_text(names.take(i + 1));
    let field = " "@ + names[i]@ + "_rad"@;
    assert(names.take(i + 1).drop_last() =~= names.take(i));
    assert(names.take(i + 1).last() == names[i]);
    assert(longer =~= short + field);
    let whole = dat_header_text(names);
    assert(whole.subrange(short.len() as int, (short.len() + field.len()) as int) =~= longer.subrange(
        short.len() as int,
        (short.len() + field.len()) as int,
    ));
    assert(longer.subrange(short.len() as int, (short.len() + field.len()) as int) =~= field);
}

} // verus!
