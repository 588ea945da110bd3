//! The process spawner's decision core. The daemon learns the invoking
//! user's login shell and home directory from a one-shot helper whose single
//! line of output has the form `<shell>|<homedir>`. Running the helper and
//! spawning the shell are I/O and stay outside the verified core; judging
//! the helper's outcome and parsing its output are decisions verified here.

use vstd::prelude::*;

verus! {

/// The field separator in the helper's output.
pub const FIELD_SEP: u8 = 124;

/// ASCII whitespace, as trimming strips it from the helper's line.
pub open spec fn is_space(b: u8) -> bool {
    b == 32 || b == 9 || b == 10 || b == 13
}

/// `s` without its leading whitespace.
pub open spec fn trim_start_spec(s: Seq<u8>) -> Seq<u8>
    decreases s.len(),
{
    if s.len() > 0 && is_space(s[0]) {
        trim_start_spec(s.skip(1))
    } else {
        s
    }
}

/// `s` without its trailing whitespace.
pub open spec fn trim_end_spec(s: Seq<u8>) -> Seq<u8>
    decreases s.len(),
{
    if s.len() > 0 && is_space(s.last()) {
        trim_end_spec(s.drop_last())
    } else {
        s
    }
}

/// `s` without leading and trailing whitespace.
pub open spec fn trim_spec(s: Seq<u8>) -> Seq<u8> {
    trim_end_spec(trim_start_spec(s))
}

/// The separator stands at `i` and nowhere else: the line splits into
/// exactly two fields.
pub open spec fn single_sep_at(t: Seq<u8>, i: int) -> bool {
    &&& 0 <= i < t.len()
    &&& t[i] == FIELD_SEP
    &&& forall|j: int| 0 <= j < t.len() && j != i ==> t[j] != FIELD_SEP
}

/// A trimmed helper line is well formed when it has exactly one separator.
pub open spec fn well_formed_line(t: Seq<u8>) -> bool {
    exists|i: int| single_sep_at(t, i)
}

/// What the spawner needs to launch a shell: the login shell to run and the
/// home directory to start it in (raw bytes of the helper's two fields).
#[derive(Debug)]
pub struct UserInfo {
    pub default_shell: Vec<u8>,
    pub home_dir: Vec<u8>,
}

/// Why the helper's outcome was rejected.
#[derive(Debug, PartialEq, Eq, Structural, Clone, Copy)]
pub enum SpawnError {
    /// The helper reported a non-zero status.
    HelperStatus,
    /// The helper wrote to its error stream.
    HelperStderr,
    /// The output does not split into exactly two `|`-separated fields.
    MalformedOutput,
}

proof fn lemma_trim_start_at(s: Seq<u8>, k: int)
    requires
        0 <= k <= s.len(),
        forall|j: int| 0 <= j < k ==> is_space(s[j]),
        k < s.len() ==> !is_space(s[k]),
    ensures
        trim_start_spec(s) == s.skip(k),
    decreases k,
{
    if k == 0 {
        assert(s.skip(0) =~= s);
    } else {
        assert(is_space(s[0]));
        lemma_trim_start_at(s.skip(1), k - 1);
        assert(s.skip(1).skip(k - 1) =~= s.skip(k));
    }
}

proof fn lemma_trim_end_at(s: Seq<u8>, k: int)
    requires
        0 <= k <= s.len(),
        forall|j: int| k <= j < s.len() ==> is_space(s[j]),
        k > 0 ==> !is_space(s[k - 1]),
    ensures
        trim_end_spec(s) == s.take(k),
    decreases s.len() - k,
{
    if k == s.len() {
        assert(s.take(k) =~= s);
    } else {
        assert(is_space(s.last()));
        lemma_trim_end_at(s.drop_last(), k);
        assert(s.drop_last().take(k) =~= s.take(k));
    }
}

/// Strip leading and trailing ASCII whitespace, as the spawner does to the
/// helper's single output line.
pub fn trim(s: &Vec<u8>) -> (r: Vec<u8>)
    ensures
        r@ == trim_spec(s@),
{
    let n = s.len();
    let mut lo: usize = 0;
    while lo < n && (s[lo] == 32 || s[lo] == 9 || s[lo] == 10 || s[lo] == 13)
        invariant
            lo <= n,
            n == s@.len(),
            forall|j: int| 0 <= j < lo ==> is_space(s@[j]),
        decreases n - lo,
    {
        lo = lo + 1;
    }
    proof {
        lemma_trim_start_at(s@, lo as int);
    }
    let mut hi: usize = n;
    while hi > lo && (s[hi - 1] == 32 || s[hi - 1] == 9 || s[hi - 1] == 10 || s[hi - 1] == 13)
        invariant
            lo <= hi <= n,
            n == s@.len(),
            forall|j: int| hi <= j < n ==> is_space(s@[j]),
        decreases hi,
    {
        hi = hi - 1;
    }
    proof {
        if hi == lo {
            lemma_trim_end_at(s@.skip(lo as int), 0);
        } else {
            lemma_trim_end_at(s@.skip(lo as int), hi - lo);
        }
    }
    let mut r: Vec<u8> = Vec::new();
    let mut i: usize = lo;
    while i < hi
        invariant
            lo <= i <= hi <= n,
            n == s@.len(),
            r@ == s@.subrange(lo as int, i as int),
        decreases hi - i,
    {
        r.push(s[i]);
        i = i + 1;
        proof {
            assert(r@ =~= s@.subrange(lo as int, i as int));
        }
    }
    proof {
        assert(r@ =~= s@.skip(lo as int).take(hi - lo as int));
    }
    r
}

/// Split a trimmed line at its single separator into the two fields.
/// Succeeds exactly when the line is well formed.
pub fn split_line(t: &Vec<u8>) -> (r: Result<UserInfo, SpawnError>)
    ensures
        match r {
            Ok(u) => exists|i: int|
                single_sep_at(t@, i) && u.default_shell@ == t@.take(i) && u.home_dir@ == t@.skip(
                    i + 1,
                ),
            Err(e) => e == SpawnError::MalformedOutput && !well_formed_line(t@),
        },
{
    let n = t.len();
    let mut sep: usize = 0;
    let mut found = false;
    let mut i: usize = 0;
    while i < n
        invariant
            i <= n,
            n == t@.len(),
            found ==> sep < i && t@[sep as int] == FIELD_SEP,
            forall|j: int| 0 <= j < i && j != sep ==> t@[j] != FIELD_SEP,
            !found ==> forall|j: int| 0 <= j < i ==> t@[j] != FIELD_SEP,
        decreases n - i,
    {
        if t[i] == FIELD_SEP {
            if found {
                proof {
                    assert forall|k: int| !single_sep_at(t@, k) by {
                        if single_sep_at(t@, k) {
                            assert(t@[sep as int] == FIELD_SEP && t@[i as int] == FIELD_SEP);
                        }
                    }
                }
                return Err(SpawnError::MalformedOutput);
            }
            sep = i;
            found = true;
        }
        i = i + 1;
    }
    if !found {
        proof {
            assert forall|k: int| !single_sep_at(t@, k) by {}
        }
        return Err(SpawnError::MalformedOutput);
    }
    let mut shell: Vec<u8> = Vec::new();
    let mut k: usize = 0;
    while k < sep
        invariant
            k <= sep <= n,
            n == t@.len(),
            shell@ == t@.subrange(0, k as int),
        decreases sep - k,
    {
        shell.push(t[k]);
        k = k + 1;
        proof {
            assert(shell@ =~= t@.subrange(0, k as int));
        }
    }
    let mut home: Vec<u8> = Vec::new();
    let mut m: usize = sep + 1;
    while m < n
        invariant
            sep + 1 <= m <= n,
            n == t@.len(),
            home@ == t@.subrange(sep + 1, m as int),
        decreases n - m,
    {
        home.push(t[m]);
        m = m + 1;
        proof {
            assert(home@ =~= t@.subrange(sep + 1, m as int));
        }
    }
    proof {
        assert(single_sep_at(t@, sep as int));
        assert(shell@ =~= t@.take(sep as int));
        assert(home@ =~= t@.skip(sep as int + 1));
    }
    Ok(UserInfo { default_shell: shell, home_dir: home })
}

/// Judge the helper's whole outcome, as the spawner does: a non-zero
/// status is rejected first, then any output on the error stream, then a
/// line that does not split into exactly the two fields `<shell>|<homedir>`
/// after trimming. Exactly the well-formed outcomes yield the user's shell
/// and home directory.
pub fn check_helper_output(status_ok: bool, stderr: &Vec<u8>, stdout: &Vec<u8>) -> (r: Result<
    UserInfo,
    SpawnError,
>)
    ensures
        match r {
            Ok(u) => status_ok && stderr@.len() == 0 && exists|i: int|
                single_sep_at(trim_spec(stdout@), i) && u.default_shell@ == trim_spec(
                    stdout@,
                ).take(i) && u.home_dir@ == trim_spec(stdout@).skip(i + 1),
            Err(SpawnError::HelperStatus) => !status_ok,
            Err(SpawnError::HelperStderr) => status_ok && stderr@.len() > 0,
            Err(SpawnError::MalformedOutput) => status_ok && stderr@.len() == 0
                && !well_formed_line(trim_spec(stdout@)),
        },
{
    if !status_ok {
        return Err(SpawnError::HelperStatus);
    }
    if stderr.len() != 0 {
        return Err(SpawnError::HelperStderr);
    }
    let t = trim(stdout);
    split_line(&t)
}

} // verus!
