//! Layout of the impulse-response data set text format.
//!
//! The data is a sample rate on the first line, a blank line, and then one
//! record per virtual speaker: a line of four direction weights, a line of
//! left-ear taps, a line of right-ear taps and a blank line. Fields on a line
//! are separated by `", "`. This module checks that layout and hands out the
//! field texts; turning them into numbers is up to the caller.

use vstd::prelude::*;

verus! {

/// Byte separating lines.
pub const LINE_BREAK: u8 = 10;

/// First byte of the field separator `", "`.
pub const COMMA: u8 = 44;

/// Second byte of the field separator `", "`.
pub const SPACE: u8 = 32;

/// Whether `sep` occurs in `s` at position `i`.
pub open spec fn occurs_at(s: Seq<u8>, sep: Seq<u8>, i: int) -> bool {
    0 <= i && i + sep.len() <= s.len() && s.subrange(i, i + sep.len()) == sep
}

/// `s` split at each non-overlapping occurrence of `sep`, scanning from the
/// front; `n` occurrences give `n + 1` pieces.
pub open spec fn split_by(s: Seq<u8>, sep: Seq<u8>) -> Seq<Seq<u8>>
    recommends
        sep.len() > 0,
    decreases s.len(),
{
    if s.len() == 0 || sep.len() == 0 {
        seq![s]
    } else if occurs_at(s, sep, 0) {
        seq![Seq::<u8>::empty()] + split_by(s.subrange(sep.len() as int, s.len() as int), sep)
    } else {
        let rest = split_by(s.drop_first(), sep);
        rest.update(0, seq![s[0]] + rest[0])
    }
}

/// The lines of a text.
pub open spec fn lines_of(s: Seq<u8>) -> Seq<Seq<u8>> {
    split_by(s, seq![LINE_BREAK])
}

/// The fields of a line.
pub open spec fn fields_of(s: Seq<u8>) -> Seq<Seq<u8>> {
    split_by(s, seq![COMMA, SPACE])
}

proof fn lemma_split_nonempty(s: Seq<u8>, sep: Seq<u8>)
    ensures
        split_by(s, sep).len() >= 1,
    decreases s.len(),
{
    if s.len() > 0 && sep.len() > 0 {
        if occurs_at(s, sep, 0) {
            lemma_split_nonempty(s.subrange(sep.len() as int, s.len() as int), sep);
        } else {
            lemma_split_nonempty(s.drop_first(), sep);
        }
    }
}

/// The pieces of `s` from position `i` on, with `cur` put in front of the first one.
spec fn split_tail(s: Seq<u8>, sep: Seq<u8>, i: int, cur: Seq<u8>) -> Seq<Seq<u8>> {
    let t = split_by(s.subrange(i, s.len() as int), sep);
    t.update(0, cur + t[0])
}

fn occurs_at_exec(s: &[u8], sep: &[u8], i: usize) -> (r: bool)
    requires
        i <= s@.len(),
    ensures
        r == occurs_at(s@, sep@, i as int),
{
    let n = s.len();
    if sep.len() > n - i {
        return false;
    }
    let mut k: usize = 0;
    while k < sep.len()
        invariant
            n == s@.len(),
            i + sep@.len() <= n,
            k <= sep@.len(),
            forall|j: int| 0 <= j < k ==> s@[i + j] == sep@[j],
        decreases sep@.len() - k,
    {
        if s[i + k] != sep[k] {
            assert(s@.subrange(i as int, i + sep@.len())[k as int] != sep@[k as int]);
            return false;
        }
        k = k + 1;
    }
    assert(s@.subrange(i as int, i + sep@.len()) =~= sep@);
    true
}

/// Split `s` at each non-overlapping occurrence of the non-empty `sep`.
pub fn split_bytes(s: &[u8], sep: &[u8]) -> (r: Vec<Vec<u8>>)
    requires
        sep@.len() > 0,
    ensures
        r@.map_values(|p: Vec<u8>| p@) == split_by(s@, sep@),
{
    let mut done: Vec<Vec<u8>> = Vec::new();
    let mut cur: Vec<u8> = Vec::new();
    let mut i: usize = 0;
    assert(s@.subrange(0, s@.len() as int) =~= s@);
    proof { lemma_split_nonempty(s@, sep@); }
    assert(split_tail(s@, sep@, 0, cur@) =~= split_by(s@, sep@));
    while i < s.len()
        invariant
            sep@.len() > 0,
            i <= s@.len(),
            split_by(s@, sep@) == done@.map_values(|p: Vec<u8>| p@) + split_tail(
                s@,
                sep@,
                i as int,
                cur@,
            ),
        decreases s@.len() - i,
    {
        let ghost rest = s@.subrange(i as int, s@.len() as int);
        if occurs_at_exec(s, sep, i) {
            let ghost next = s@.subrange(i + sep@.len(), s@.len() as int);
            assert(occurs_at(rest, sep@, 0)) by {
                assert(rest.subrange(0, sep@.len() as int) =~= s@.subrange(
                    i as int,
                    i + sep@.len(),
                ));
            }
            assert(rest.subrange(sep@.len() as int, rest.len() as int) =~= next);
            proof { lemma_split_nonempty(next, sep@); }
            let piece = cur;
            cur = Vec::new();
            done.push(piece);
            i = i + sep.len();
            assert(split_tail(s@, sep@, i as int, cur@) =~= split_by(next, sep@));
            assert(seq![piece@] + split_by(next, sep@) =~= split_tail(
                s@,
                sep@,
                (i - sep@.len()) as int,
                piece@,
            ));
            assert(done@.map_values(|p: Vec<u8>| p@) =~= done@.drop_last().map_values(
                |p: Vec<u8>| p@,
            ) + seq![piece@]);
        } else {
            let ghost next = s@.subrange(i + 1, s@.len() as int);
            assert(!occurs_at(rest, sep@, 0)) by {
                if rest.len() >= sep@.len() {
                    assert(rest.subrange(0, sep@.len() as int) =~= s@.subrange(
                        i as int,
                        i + sep@.len(),
                    ));
                }
            }
            assert(rest.drop_first() =~= next);
            proof { lemma_split_nonempty(next, sep@); }
            let ghost old_cur = cur@;
            let ghost t = split_by(next, sep@);
            assert(split_by(rest, sep@) == t.update(0, seq![rest[0]] + t[0]));
            cur.push(s[i]);
            i = i + 1;
            assert(old_cur + (seq![rest[0]] + t[0]) =~= cur@ + t[0]);
            assert(split_tail(s@, sep@, (i - 1) as int, old_cur) =~= split_tail(
                s@,
                sep@,
                i as int,
                cur@,
            ));
        }
    }
    assert(s@.subrange(i as int, s@.len() as int) =~= Seq::<u8>::empty());
    let ghost last = cur@;
    done.push(cur);
    assert(split_tail(s@, sep@, i as int, last) =~= seq![last]);
    assert(done@.map_values(|p: Vec<u8>| p@) =~= done@.drop_last().map_values(|p: Vec<u8>| p@)
        + seq![last]);
    done
}

/// Why an impulse-response data set is malformed.
#[derive(Clone, Copy, Debug, PartialEq, Eq, Structural)]
pub enum FormatError {
    /// The blank line after the sample rate or after a speaker record is absent or not blank.
    MissingBlankLine,
    /// A direction line does not hold exactly four fields.
    WeightCount,
    /// A left-ear or right-ear impulse-response line is absent or blank.
    MissingResponse,
    /// Lines follow the blank line that ends the records.
    TrailingData,
}

/// The field texts of one virtual speaker, as the contracts see them.
pub struct SpeakerFields {
    pub weights: Seq<Seq<u8>>,
    pub left: Seq<Seq<u8>>,
    pub right: Seq<Seq<u8>>,
}

/// The texts of a whole data set, as the contracts see them.
pub struct HrirFields {
    pub rate: Seq<u8>,
    pub speakers: Seq<SpeakerFields>,
}

/// The field texts of one virtual speaker record.
pub struct SpeakerText {
    /// The four direction weights.
    pub weights: Vec<Vec<u8>>,
    /// The left-ear impulse-response taps.
    pub left: Vec<Vec<u8>>,
    /// The right-ear impulse-response taps.
    pub right: Vec<Vec<u8>>,
}

/// The texts of an impulse-response data set.
pub struct HrirText {
    /// The sample rate line.
    pub rate: Vec<u8>,
    /// One record per virtual speaker, in the order of the data.
    pub speakers: Vec<SpeakerText>,
}

/// The views of a sequence of byte vectors.
pub open spec fn texts(v: Seq<Vec<u8>>) -> Seq<Seq<u8>> {
    v.map_values(|p: Vec<u8>| p@)
}

impl View for SpeakerText {
    type V = SpeakerFields;

    open spec fn view(&self) -> SpeakerFields {
        SpeakerFields {
            weights: texts(self.weights@),
            left: texts(self.left@),
            right: texts(self.right@),
        }
    }
}

impl View for HrirText {
    type V = HrirFields;

    open spec fn view(&self) -> HrirFields {
        HrirFields { rate: self.rate@, speakers: self.speakers@.map_values(|t: SpeakerText| t@) }
    }
}

/// `acc` put in front of the records of `r`, or the error of `r`.
pub open spec fn prefixed(acc: Seq<SpeakerFields>, r: Result<Seq<SpeakerFields>, FormatError>) -> Result<
    Seq<SpeakerFields>,
    FormatError,
> {
    match r {
        Ok(rest) => Ok(acc + rest),
        Err(e) => Err(e),
    }
}

/// The speaker records that start at line `i` of `ls`.
pub open spec fn records_from(ls: Seq<Seq<u8>>, i: int) -> Result<Seq<SpeakerFields>, FormatError>
    decreases ls.len() - i,
{
    if i < 0 || i >= ls.len() {
        Ok(Seq::empty())
    } else if ls[i].len() == 0 {
        if i + 1 < ls.len() {
            Err(FormatError::TrailingData)
        } else {
            Ok(Seq::empty())
        }
    } else if fields_of(ls[i]).len() != 4 {
        Err(FormatError::WeightCount)
    } else if i + 2 >= ls.len() || ls[i + 1].len() == 0 || ls[i + 2].len() == 0 {
        Err(FormatError::MissingResponse)
    } else if i + 3 >= ls.len() || ls[i + 3].len() != 0 {
        Err(FormatError::MissingBlankLine)
    } else {
        let sp = SpeakerFields {
            weights: fields_of(ls[i]),
            left: fields_of(ls[i + 1]),
            right: fields_of(ls[i + 2]),
        };
        prefixed(seq![sp], records_from(ls, i + 4))
    }
}

/// The layout of an impulse-response data set, or why it is malformed.
pub open spec fn layout_of(data: Seq<u8>) -> Result<HrirFields, FormatError> {
    let ls = lines_of(data);
    if ls.len() < 2 || ls[1].len() != 0 {
        Err(FormatError::MissingBlankLine)
    } else {
        match records_from(ls, 2) {
            Ok(sp) => Ok(HrirFields { rate: ls[0], speakers: sp }),
            Err(e) => Err(e),
        }
    }
}

proof fn lemma_prefixed_assoc(a: Seq<SpeakerFields>, b: Seq<SpeakerFields>, r: Result<Seq<SpeakerFields>, FormatError>)
    ensures
        prefixed(a, prefixed(b, r)) == prefixed(a + b, r),
{
    match r {
        Ok(rest) => {
            assert(a + (b + rest) =~= (a + b) + rest);
        },
        Err(e) => {},
    }
}

/// Check the layout of an impulse-response data set and take out its field
/// texts.
pub fn parse_hrir(data: &[u8]) -> (r: Result<HrirText, FormatError>)
    ensures
        match r {
            Ok(t) => layout_of(data@) == Ok::<HrirFields, FormatError>(t@),
            Err(e) => layout_of(data@) == Err::<HrirFields, FormatError>(e),
        },
{
    let line_sep: Vec<u8> = vec![LINE_BREAK];
    let field_sep: Vec<u8> = vec![COMMA, SPACE];
    let lines = split_bytes(data, line_sep.as_slice());
    let ghost ls = texts(lines@);
    assert(ls == lines_of(data@)) by {
        assert(line_sep@ =~= seq![LINE_BREAK]);
    }
    assert(field_sep@ =~= seq![COMMA, SPACE]);
    let n = lines.len();
    if n >= 2 {
        assert(ls[1] == lines@[1]@);
    }
    if n < 2 || lines[1].len() != 0 {
        return Err(FormatError::MissingBlankLine);
    }
    let mut speakers: Vec<SpeakerText> = Vec::new();
    let mut i: usize = 2;
    assert(speakers@.map_values(|t: SpeakerText| t@) =~= Seq::<SpeakerFields>::empty());
    assert(prefixed(Seq::empty(), records_from(ls, 2)) == records_from(ls, 2)) by {
        match records_from(ls, 2) {
            Ok(rest) => {
                assert(Seq::<SpeakerFields>::empty() + rest =~= rest);
            },
            Err(e) => {},
        }
    }
    loop
        invariant
            n == lines@.len(),
            ls == texts(lines@),
            ls == lines_of(data@),
            ls.len() == n,
            ls[1].len() == 0,
            field_sep@ == seq![COMMA, SPACE],
            2 <= i <= n,
            records_from(ls, 2) == prefixed(
                speakers@.map_values(|t: SpeakerText| t@),
                records_from(ls, i as int),
            ),
        ensures
            records_from(ls, 2) == prefixed(
                speakers@.map_values(|t: SpeakerText| t@),
                records_from(ls, i as int),
            ),
            records_from(ls, i as int) == Ok::<Seq<SpeakerFields>, FormatError>(Seq::empty()),
            ls == lines_of(data@),
            ls[1].len() == 0,
            n == lines@.len(),
            ls == texts(lines@),
        decreases n - i,
    {
        if i < n {
            assert(ls[i as int] == lines@[i as int]@);
        }
        if i >= n || lines[i].len() == 0 {
            if i < n && n - i > 1 {
                return Err(FormatError::TrailingData);
            }
            break;
        }
        let weights = split_bytes(lines[i].as_slice(), field_sep.as_slice());
        assert(fields_of(ls[i as int]) == texts(weights@));
        if weights.len() != 4 {
            return Err(FormatError::WeightCount);
        }
        if n - i <= 2 || lines[i + 1].len() == 0 || lines[i + 2].len() == 0 {
            return Err(FormatError::MissingResponse);
        }
        assert(ls[i + 1] == lines@[i + 1]@);
        assert(ls[i + 2] == lines@[i + 2]@);
        if n - i > 3 {
            assert(ls[i + 3] == lines@[i + 3]@);
        }
        if n - i <= 3 || lines[i + 3].len() != 0 {
            return Err(FormatError::MissingBlankLine);
        }
        let left = split_bytes(lines[i + 1].as_slice(), field_sep.as_slice());
        let right = split_bytes(lines[i + 2].as_slice(), field_sep.as_slice());
        let record = SpeakerText { weights, left, right };
        let ghost before = speakers@.map_values(|t: SpeakerText| t@);
        proof {
            lemma_prefixed_assoc(before, seq![record@], records_from(ls, i + 4));
        }
        speakers.push(record);
        assert(speakers@.map_values(|t: SpeakerText| t@) =~= before + seq![record@]);
        i = i + 4;
    }
    assert(speakers@.map_values(|t: SpeakerText| t@) + Seq::<SpeakerFields>::empty()
        =~= speakers@.map_values(|t: SpeakerText| t@));
    assert(ls[0] == lines@[0]@);
    let rate = lines[0].clone();
    assert(rate@ =~= ls[0]);
    Ok(HrirText { rate, speakers })
}

} // verus!
