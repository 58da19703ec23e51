//! Differential conformance testing: comparing outputs byte by byte, the
//! verdict on one model, and the tally of a corpus run.

use vstd::prelude::*;
use vstd::utf8::{
    decode_utf8, encode_utf8, encode_utf8_decode_utf8, encode_utf8_valid_utf8, is_char_boundary,
    is_char_boundary_start_end_of_seq,
};

use crate::text::{decimal, push_char, push_decimal, push_str};

verus! {

/// Errors of a conformance run.
#[derive(Debug)]
pub enum ConformanceError {
    /// An I/O operation failed; the text is the operating system's.
    Io(String),
    /// Output was not valid UTF-8; holds the bytes.
    Utf8(Vec<u8>),
    Parse(String),
    ModelLoad(String),
}

/// What a conformance run is given.
#[derive(Debug)]
pub struct ConformanceConfig {
    /// Directory (or single file) of GGUF models.
    pub corpus_dir: String,
    /// Reference llama.cpp binary, if any.
    pub reference_llama_cpp: Option<String>,
    /// Minimum pass count expected.
    pub floor_pass_count: usize,
    /// File the pass count is written to, if any.
    pub floor_file: Option<String>,
}

/// Outcome of a conformance run.
#[derive(Debug)]
pub struct ConformanceResult {
    pub total_models: usize,
    /// One `"<model> - hash=<prefix>"` line per passing model.
    pub passed: Vec<String>,
    pub failures: Vec<FailureInfo>,
}

/// A failing model.
#[derive(Debug)]
pub struct FailureInfo {
    pub model_name: String,
    /// Output hash of the reference.
    pub expected_hash: String,
    /// Output hash of this runtime, or the error that stopped it.
    pub actual_hash: String,
}

impl Clone for FailureInfo {
    fn clone(&self) -> (r: Self)
        ensures
            r.model_name@ == self.model_name@,
            r.expected_hash@ == self.expected_hash@,
            r.actual_hash@ == self.actual_hash@,
    {
        FailureInfo {
            model_name: self.model_name.clone(),
            expected_hash: self.expected_hash.clone(),
            actual_hash: self.actual_hash.clone(),
        }
    }
}

/// Where two outputs differ.
#[derive(Debug)]
pub struct DivergenceInfo {
    /// First differing position, if any.
    pub divergence_offset: Option<usize>,
    /// Every differing position within the shorter output, in order.
    pub changes: Vec<DivergenceChange>,
    pub total_bytes_expected: usize,
    pub total_bytes_actual: usize,
}

/// One differing byte.
#[derive(Debug, Clone, Copy, PartialEq, Eq, Structural)]
pub struct DivergenceChange {
    pub position: usize,
    pub expected: u8,
    pub actual: u8,
}

/// The differing positions among the first `n` positions, in order.
pub open spec fn differences(e: Seq<u8>, a: Seq<u8>, n: nat) -> Seq<DivergenceChange>
    decreases n,
{
    if n == 0 {
        Seq::empty()
    } else {
        let i = (n - 1) as int;
        let rest = differences(e, a, (n - 1) as nat);
        if e[i] != a[i] {
            rest.push(DivergenceChange { position: i as usize, expected: e[i], actual: a[i] })
        } else {
            rest
        }
    }
}

/// Length of the common extent of two outputs.
pub open spec fn common_len(e: Seq<u8>, a: Seq<u8>) -> nat {
    if e.len() <= a.len() {
        e.len()
    } else {
        a.len()
    }
}

/// The byte-level differences of two outputs, compared position by position
/// over the shorter one.
pub fn delta_minimize(expected: &[u8], actual: &[u8]) -> (r: DivergenceInfo)
    ensures
        r.changes@ == differences(expected@, actual@, common_len(expected@, actual@)),
        r.divergence_offset == (if r.changes@.len() > 0 {
            Some(r.changes@[0].position)
        } else {
            None::<usize>
        }),
        r.total_bytes_expected == expected@.len(),
        r.total_bytes_actual == actual@.len(),
{
    let n = if expected.len() <= actual.len() {
        expected.len()
    } else {
        actual.len()
    };
    let mut changes: Vec<DivergenceChange> = Vec::new();
    let mut i: usize = 0;
    while i < n
        invariant
            n == common_len(expected@, actual@),
            n <= expected@.len(),
            n <= actual@.len(),
            i <= n,
            changes@ == differences(expected@, actual@, i as nat),
        decreases n - i,
    {
        if expected[i] != actual[i] {
            changes.push(DivergenceChange { position: i, expected: expected[i], actual: actual[i] });
        }
        i = i + 1;
    }
    let divergence_offset = if changes.len() > 0 {
        Some(changes[0].position)
    } else {
        None
    };
    DivergenceInfo {
        divergence_offset,
        changes,
        total_bytes_expected: expected.len(),
        total_bytes_actual: actual.len(),
    }
}

/// Every change lies in the compared extent, the positions strictly
/// increase, and a change is recorded exactly where the outputs differ.
pub proof fn lemma_differences_exact(e: Seq<u8>, a: Seq<u8>, n: nat)
    requires
        n <= e.len(),
        n <= a.len(),
        n <= usize::MAX,
    ensures
        forall|k: int|
            0 <= k < differences(e, a, n).len() ==> {
                let c = #[trigger] differences(e, a, n)[k];
                &&& c.position < n
                &&& c.expected == e[c.position as int]
                &&& c.actual == a[c.position as int]
                &&& c.expected != c.actual
            },
        forall|k: int, l: int|
            0 <= k < l < differences(e, a, n).len() ==> differences(e, a, n)[k].position
                < differences(e, a, n)[l].position,
        forall|p: int|
            0 <= p < n && e[p] != a[p] ==> exists|k: int|
                0 <= k < differences(e, a, n).len() && #[trigger] differences(e, a, n)[k].position
                    == p,
    decreases n,
{
    if n > 0 {
        lemma_differences_exact(e, a, (n - 1) as nat);
        let rest = differences(e, a, (n - 1) as nat);
        let i = (n - 1) as int;
        if e[i] != a[i] {
            let full = differences(e, a, n);
            assert(full == rest.push(
                DivergenceChange { position: i as usize, expected: e[i], actual: a[i] },
            ));
            assert forall|p: int| 0 <= p < n && e[p] != a[p] implies exists|k: int|
                0 <= k < full.len() && #[trigger] full[k].position == p by {
                if p == i {
                    assert(full[rest.len() as int].position == p);
                } else {
                    let k = choose|k: int| 0 <= k < rest.len() && #[trigger] rest[k].position == p;
                    assert(full[k].position == p);
                }
            }
        } else {
            let full = differences(e, a, n);
            assert(full == rest);
            assert forall|p: int| 0 <= p < n && e[p] != a[p] implies exists|k: int|
                0 <= k < full.len() && #[trigger] full[k].position == p by {
                let k = choose|k: int| 0 <= k < rest.len() && #[trigger] rest[k].position == p;
                assert(full[k].position == p);
            }
        }
    }
}

/// Lower-case hexadecimal digit of a value below 16.
pub open spec fn hex_digit(d: nat) -> char {
    if d < 10 {
        (48 + d) as char
    } else {
        (87 + d) as char
    }
}

/// The lowest `width` hexadecimal digits of `n`, most significant first.
pub open spec fn hex_digits(n: nat, width: nat) -> Seq<char>
    decreases width,
{
    if width == 0 {
        Seq::empty()
    } else {
        hex_digits(n / 16, (width - 1) as nat).push(hex_digit(n % 16))
    }
}

fn push_hex_digits(s: &mut String, n: u64, width: u32)
    requires
        width <= 16,
    ensures
        final(s)@ == old(s)@ + hex_digits(n as nat, width as nat),
    decreases width,
{
    if width > 0 {
        push_hex_digits(s, n / 16, width - 1);
        let d = n % 16;
        let c: char = if d < 10 {
            ((48 + d) as u8) as char
        } else {
            ((87 + d) as u8) as char
        };
        push_char(s, c);
    }
}

/// The verdict string on one model: the decimal output hash when a
/// non-empty reference output was produced and hashes the same as a
/// non-empty output of this runtime, else the output hash as 16 lower-case
/// hexadecimal digits.
pub fn model_verdict(reference: &Option<String>, output: &str, output_hash: u64, reference_hash: u64) -> (r:
    String)
    ensures
        (match reference {
            Some(ref_out) => ref_out@.len() > 0 && output@.len() > 0 && output_hash == reference_hash,
            None => false,
        }) ==> r@ == decimal(output_hash as nat),
        !(match reference {
            Some(ref_out) => ref_out@.len() > 0 && output@.len() > 0 && output_hash == reference_hash,
            None => false,
        }) ==> r@ == hex_digits(output_hash as nat, 16),
{
    let mut s = String::new();
    let agree = match reference {
        Some(ref_out) => !ref_out.as_str().is_empty() && !output.is_empty() && output_hash
            == reference_hash,
        None => false,
    };
    if agree {
        push_decimal(&mut s, output_hash);
    } else {
        push_hex_digits(&mut s, output_hash, 16);
    }
    s
}

/// The text of a hash's first eight UTF-8 bytes (the whole hash when it is
/// shorter).
pub open spec fn hash_prefix(h: Seq<char>) -> Seq<char> {
    if encode_utf8(h).len() <= 8 {
        h
    } else {
        decode_utf8(encode_utf8(h).subrange(0, 8))
    }
}

/// A hash can be cut after its eighth byte: it is at most eight bytes long,
/// or its eighth byte ends a character.
pub open spec fn cuttable_hash(h: Seq<char>) -> bool {
    encode_utf8(h).len() <= 8 || is_char_boundary(encode_utf8(h), 8)
}

/// The line recorded for a passing model.
pub open spec fn pass_line(name: Seq<char>, hash: Seq<char>) -> Seq<char> {
    name + " - hash="@ + hash_prefix(hash)
}

/// The lines of the passing models among `os`, in order.
pub open spec fn pass_lines(os: Seq<(String, Result<String, String>)>) -> Seq<Seq<char>>
    decreases os.len(),
{
    if os.len() == 0 {
        Seq::empty()
    } else {
        let rest = pass_lines(os.drop_last());
        match os.last().1 {
            Ok(h) => rest.push(pass_line(os.last().0@, h@)),
            Err(_) => rest,
        }
    }
}

/// Model name and failure text of the failing models among `os`, in order.
pub open spec fn failure_entries(os: Seq<(String, Result<String, String>)>) -> Seq<(Seq<char>, Seq<char>)>
    decreases os.len(),
{
    if os.len() == 0 {
        Seq::empty()
    } else {
        let rest = failure_entries(os.drop_last());
        match os.last().1 {
            Ok(_) => rest,
            Err(m) => rest.push((os.last().0@, m@)),
        }
    }
}

/// Tallies the per-model outcomes of a corpus run, in order: a model whose
/// run produced a hash passes with the line `"<model> - hash=<first 8 hash
/// characters>"`; a model whose run failed is recorded with expected hash
/// `unknown` and the failure's text.
pub fn tally_conformance(outcomes: &Vec<(String, Result<String, String>)>) -> (r: ConformanceResult)
    requires
        forall|i: int|
            0 <= i < outcomes@.len() ==> ((#[trigger] outcomes@[i]).1 matches Ok(h) ==> cuttable_hash(
                h@,
            )),
    ensures
        r.total_models == outcomes@.len(),
        r.passed@.map_values(|s: String| s@) == pass_lines(outcomes@),
        r.failures@.map_values(|f: FailureInfo| (f.model_name@, f.actual_hash@)) == failure_entries(
            outcomes@,
        ),
        forall|k: int| 0 <= k < r.failures@.len() ==> (#[trigger] r.failures@[k]).expected_hash@ == "unknown"@,
{
    let mut passed: Vec<String> = Vec::new();
    let mut failures: Vec<FailureInfo> = Vec::new();
    let mut i: usize = 0;
    proof {
        assert(outcomes@.take(0) =~= Seq::<(String, Result<String, String>)>::empty());
        assert(passed@.map_values(|s: String| s@) =~= Seq::<Seq<char>>::empty());
        assert(failures@.map_values(|f: FailureInfo| (f.model_name@, f.actual_hash@)) =~= Seq::<
            (Seq<char>, Seq<char>),
        >::empty());
    }
    while i < outcomes.len()
        invariant
            i <= outcomes@.len(),
            forall|j: int|
                0 <= j < outcomes@.len() ==> ((#[trigger] outcomes@[j]).1 matches Ok(h)
                    ==> cuttable_hash(h@)),
            passed@.len() + failures@.len() == i,
            passed@.map_values(|s: String| s@) == pass_lines(outcomes@.take(i as int)),
            failures@.map_values(|f: FailureInfo| (f.model_name@, f.actual_hash@))
                == failure_entries(outcomes@.take(i as int)),
            forall|k: int| 0 <= k < failures@.len() ==> (#[trigger] failures@[k]).expected_hash@ == "unknown"@,
        decreases outcomes@.len() - i,
    {
        let (name, outcome) = &outcomes[i];
        proof {
            assert(outcomes@.take(i + 1).drop_last() =~= outcomes@.take(i as int));
            assert(outcomes@.take(i + 1).last() == outcomes@[i as int]);
        }
        match outcome {
            Ok(hash) => {
                let h = hash.as_str();
                let hl = h.as_bytes().len();
                let m: usize = if hl < 8 {
                    hl
                } else {
                    8
                };
                proof {
                    broadcast use encode_utf8_valid_utf8, is_char_boundary_start_end_of_seq;

                    assert(outcomes@[i as int].1 == Ok::<String, String>(*hash));
                    assert(cuttable_hash(hash@));
                    assert(h@ == hash@);
                    encode_utf8_valid_utf8(h@);
                    is_char_boundary_start_end_of_seq(encode_utf8(h@));
                    assert(m as int == encode_utf8(h@).len() || m == 8);
                    assert(is_char_boundary(encode_utf8(h@), m as int));
                }
                let (prefix, _) = h.split_at(m);
                proof {
                    encode_utf8_decode_utf8(prefix@);
                    encode_utf8_decode_utf8(h@);
                    if encode_utf8(h@).len() <= 8 {
                        assert(encode_utf8(h@).subrange(0, m as int) =~= encode_utf8(h@));
                    }
                }
                let mut line = String::new();
                push_str(&mut line, name.as_str());
                push_str(&mut line, " - hash=");
                push_str(&mut line, prefix);
                proof {
                    assert(prefix@ =~= hash_prefix(hash@));
                    assert(line@ =~= pass_line(name@, hash@));
                }
                let ghost before = passed@;
                passed.push(line);
                proof {
                    assert(passed@.map_values(|s: String| s@) =~= before.map_values(|s: String| s@).push(
                        pass_line(name@, hash@),
                    ));
                }
            },
            Err(msg) => {
                let ghost before = failures@;
                failures.push(
                    FailureInfo {
                        model_name: name.clone(),
                        expected_hash: "unknown".to_string(),
                        actual_hash: msg.clone(),
                    },
                );
                proof {
                    assert(failures@.map_values(|f: FailureInfo| (f.model_name@, f.actual_hash@))
                        =~= before.map_values(|f: FailureInfo| (f.model_name@, f.actual_hash@)).push(
                        (name@, msg@),
                    ));
                }
            },
        }
        i = i + 1;
    }
    proof {
        assert(outcomes@.take(outcomes@.len() as int) =~= outcomes@);
    }
    let total_models = passed.len() + failures.len();
    ConformanceResult { total_models, passed, failures }
}

} // verus!
