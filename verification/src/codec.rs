//! Slash-free encoding of filesystem paths.
//!
//! Artifact filenames are derived from source paths: the path is walked left
//! to right, and every run of non-separator characters is emitted as the
//! decimal length of the run followed by the run itself.  Consecutive
//! separators yield a `0` with an empty run; a trailing separator is dropped.
//! The result never contains a separator, so all artifacts can live flat in
//! one directory.

use vstd::prelude::*;

verus! {

use vstd::string::StringExecFns;
use vstd::string::StrSliceExecFns;

/// The character a decimal digit prints as.
pub open spec fn digit_char(d: nat) -> char {
    if d == 0 {
        '0'
    } else if d == 1 {
        '1'
    } else if d == 2 {
        '2'
    } else if d == 3 {
        '3'
    } else if d == 4 {
        '4'
    } else if d == 5 {
        '5'
    } else if d == 6 {
        '6'
    } else if d == 7 {
        '7'
    } else if d == 8 {
        '8'
    } else {
        '9'
    }
}

/// Decimal digits of `n`, most significant first.
pub open spec fn dec_digits(n: nat) -> Seq<char>
    decreases n,
{
    if n < 10 {
        seq![digit_char(n)]
    } else {
        dec_digits(n / 10) + seq![digit_char(n % 10)]
    }
}

/// One step of the encoding: `p` is the rest of the path, `run` the
/// separator-free characters gathered since the last separator.
pub open spec fn encode_runs(p: Seq<char>, run: Seq<char>) -> Seq<char>
    decreases p.len(),
{
    if p.len() == 0 {
        if run.len() == 0 {
            Seq::empty()
        } else {
            dec_digits(run.len() as nat) + run
        }
    } else if p[0] == '/' {
        dec_digits(run.len() as nat) + run + encode_runs(p.skip(1), Seq::empty())
    } else {
        encode_runs(p.skip(1), run.push(p[0]))
    }
}

/// The encoding of a whole path.
pub open spec fn encode_spec(p: Seq<char>) -> Seq<char> {
    encode_runs(p, Seq::empty())
}

fn digit_str(d: usize) -> (r: &'static str)
    requires
        d < 10,
    ensures
        r@ == seq![digit_char(d as nat)],
{
    let r: &'static str = match d {
        0 => "0",
        1 => "1",
        2 => "2",
        3 => "3",
        4 => "4",
        5 => "5",
        6 => "6",
        7 => "7",
        8 => "8",
        _ => "9",
    };
    proof {
        reveal_strlit("0");
        reveal_strlit("1");
        reveal_strlit("2");
        reveal_strlit("3");
        reveal_strlit("4");
        reveal_strlit("5");
        reveal_strlit("6");
        reveal_strlit("7");
        reveal_strlit("8");
        reveal_strlit("9");
        assert(r@ =~= seq![digit_char(d as nat)]);
    }
    r
}

/// Decimal rendering of an unsigned number.
fn dec_string(n: usize) -> (r: String)
    ensures
        r@ == dec_digits(n as nat),
    decreases n,
{
    if n < 10 {
        String::from_str(digit_str(n))
    } else {
        let mut s = dec_string(n / 10);
        s.append(digit_str(n % 10));
        proof {
            assert(s@ =~= dec_digits(n as nat));
        }
        s
    }
}

/// Encode a path into a separator-free artifact name.
pub fn encode_path(path: &str) -> (r: String)
    ensures
        r@ == encode_spec(path@),
{
    let n = path.unicode_len();
    let mut result = String::new();
    let mut start: usize = 0;
    let mut i: usize = 0;
    proof {
        assert(result@ =~= Seq::<char>::empty());
        assert(path@.skip(0) =~= path@);
        assert(path@.subrange(0, 0) =~= Seq::<char>::empty());
    }
    while i < n
        invariant
            start <= i <= n,
            n == path@.len(),
            forall|k: int| start <= k < i ==> path@[k] != '/',
            encode_spec(path@) == result@ + encode_runs(
                path@.skip(i as int),
                path@.subrange(start as int, i as int),
            ),
        decreases n - i,
    {
        let ghost rest = path@.skip(i as int);
        let ghost run = path@.subrange(start as int, i as int);
        let c = path.get_char(i);
        proof {
            assert(rest[0] == path@[i as int]);
            assert(rest.skip(1) =~= path@.skip(i + 1));
        }
        if c == '/' {
            let digits = dec_string(i - start);
            result.append(digits.as_str());
            let run_str = path.substring_char(start, i);
            result.append(run_str);
            proof {
                assert(encode_runs(rest, run) == dec_digits(run.len() as nat) + run
                    + encode_runs(path@.skip(i + 1), Seq::empty()));
                assert(path@.subrange(i + 1, i + 1) =~= Seq::<char>::empty());
            }
            start = i + 1;
        } else {
            proof {
                assert(encode_runs(rest, run) == encode_runs(path@.skip(i + 1), run.push(
                    path@[i as int],
                )));
                assert(run.push(path@[i as int]) =~= path@.subrange(start as int, i + 1));
            }
        }
        i = i + 1;
    }
    proof {
        assert(path@.skip(n as int) =~= Seq::<char>::empty());
    }
    if start < n {
        let digits = dec_string(n - start);
        result.append(digits.as_str());
        let run_str = path.substring_char(start, n);
        result.append(run_str);
    } else {
        proof {
            assert(path@.subrange(start as int, n as int) =~= Seq::<char>::empty());
        }
    }
    result
}

proof fn lemma_dec_digits_no_slash(n: nat)
    ensures
        forall|k: int| 0 <= k < dec_digits(n).len() ==> dec_digits(n)[k] != '/',
    decreases n,
{
    if n < 10 {
        assert(dec_digits(n)[0] == digit_char(n));
    } else {
        lemma_dec_digits_no_slash(n / 10);
        assert forall|k: int| 0 <= k < dec_digits(n).len() implies dec_digits(n)[k] != '/' by {
            if k < dec_digits(n / 10).len() {
                assert(dec_digits(n)[k] == dec_digits(n / 10)[k]);
            } else {
                assert(dec_digits(n)[k] == digit_char(n % 10));
            }
        }
    }
}

proof fn lemma_encode_runs_no_slash(p: Seq<char>, run: Seq<char>)
    requires
        forall|k: int| 0 <= k < run.len() ==> run[k] != '/',
    ensures
        forall|k: int| 0 <= k < encode_runs(p, run).len() ==> encode_runs(p, run)[k] != '/',
    decreases p.len(),
{
    lemma_dec_digits_no_slash(run.len() as nat);
    let d = dec_digits(run.len() as nat);
    if p.len() == 0 {
        if run.len() > 0 {
            assert forall|k: int| 0 <= k < encode_runs(p, run).len() implies encode_runs(p, run)[k]
                != '/' by {
                if k < d.len() {
                    assert(encode_runs(p, run)[k] == d[k]);
                } else {
                    assert(encode_runs(p, run)[k] == run[k - d.len()]);
                }
            }
        }
    } else if p[0] == '/' {
        lemma_encode_runs_no_slash(p.skip(1), Seq::empty());
        let tail = encode_runs(p.skip(1), Seq::empty());
        assert forall|k: int| 0 <= k < encode_runs(p, run).len() implies encode_runs(p, run)[k]
            != '/' by {
            if k < d.len() {
                assert(encode_runs(p, run)[k] == (d + run)[k]);
                assert((d + run)[k] == d[k]);
            } else if k < d.len() + run.len() {
                assert(encode_runs(p, run)[k] == (d + run)[k]);
                assert((d + run)[k] == run[k - d.len()]);
            } else {
                assert(encode_runs(p, run)[k] == tail[k - (d + run).len()]);
            }
        }
    } else {
        assert forall|k: int| 0 <= k < run.push(p[0]).len() implies run.push(p[0])[k] != '/' by {
            if k < run.len() {
                assert(run.push(p[0])[k] == run[k]);
            }
        }
        lemma_encode_runs_no_slash(p.skip(1), run.push(p[0]));
        assert(encode_runs(p, run) == encode_runs(p.skip(1), run.push(p[0])));
    }
}

/// An encoded path contains no separator, whatever the input path was.
pub proof fn lemma_encode_no_slash(p: Seq<char>)
    ensures
        !encode_spec(p).contains('/'),
        forall|k: int| 0 <= k < encode_spec(p).len() ==> encode_spec(p)[k] != '/',
{
    lemma_encode_runs_no_slash(p, Seq::empty());
    if encode_spec(p).contains('/') {
        let k = choose|k: int| 0 <= k < encode_spec(p).len() && encode_spec(p)[k] == '/';
        assert(encode_spec(p)[k] != '/');
    }
}

} // verus!
