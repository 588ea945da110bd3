//! Message-of-the-day helpers. Resolving the message and showing it belong
//! to external collaborators; what is verified here is the pure logic they
//! lean on: rendering the message into raw terminal bytes (a carriage return
//! injected after each newline), and the argument fix-up the resolver wants.

use vstd::prelude::*;

verus! {

/// The newline byte that ends each line of the message.
pub const NEWLINE: u8 = 10;

/// The index of the first newline in `m`, or `m.len()` if there is none.
pub open spec fn first_nl(m: Seq<u8>) -> int
    decreases m.len(),
{
    if m.len() == 0 {
        0
    } else if m[0] == NEWLINE {
        0
    } else {
        1 + first_nl(m.skip(1))
    }
}

proof fn lemma_first_nl_at(m: Seq<u8>, k: int)
    requires
        0 <= k <= m.len(),
        forall|j: int| 0 <= j < k ==> m[j] != NEWLINE,
        k < m.len() ==> m[k] == NEWLINE,
    ensures
        first_nl(m) == k,
    decreases k,
{
    if k == 0 {
    } else {
        lemma_first_nl_at(m.skip(1), k - 1);
    }
}

/// The raw terminal bytes of the message: each of its newline-separated
/// lines, a newline, then the terminal's carriage-return code — the last
/// line included, so the output always ends in a newline and the code.
pub open spec fn rendered(m: Seq<u8>, cr: Seq<u8>) -> Seq<u8>
    decreases m.len(),
{
    let i = first_nl(m);
    if 0 <= i < m.len() {
        m.take(i) + seq![NEWLINE] + cr + rendered(m.skip(i + 1), cr)
    } else {
        m + seq![NEWLINE] + cr
    }
}

/// Render the message for the terminal: after every line — the trailing one
/// included — a newline and the terminal's carriage-return code, handed in
/// as plain bytes by whoever read the terminal database.
pub fn convert_to_raw(motd: &Vec<u8>, cr_code: &Vec<u8>) -> (r: Vec<u8>)
    ensures
        r@ == rendered(motd@, cr_code@),
{
    let n = motd.len();
    let mut r: Vec<u8> = Vec::new();
    let mut pos: usize = 0;
    proof {
        assert(motd@.skip(0) =~= motd@);
        assert(Seq::<u8>::empty() + rendered(motd@, cr_code@) =~= rendered(motd@, cr_code@));
    }
    while pos < n
        invariant
            pos <= n,
            n == motd@.len(),
            rendered(motd@, cr_code@) == r@ + rendered(motd@.skip(pos as int), cr_code@),
        decreases n - pos,
    {
        let ghost rest = motd@.skip(pos as int);
        let mut i: usize = pos;
        while i < n && motd[i] != NEWLINE
            invariant
                pos <= i <= n,
                n == motd@.len(),
                forall|j: int| pos <= j < i ==> motd@[j] != NEWLINE,
            decreases n - i,
        {
            i = i + 1;
        }
        proof {
            assert forall|j: int| 0 <= j < i - pos implies rest[j] != NEWLINE by {
                assert(rest[j] == motd@[pos + j]);
            }
            if i < n {
                assert(rest[i - pos] == motd@[i as int]);
            }
            lemma_first_nl_at(rest, i - pos as int);
        }
        let ghost r0 = r@;
        let mut k: usize = pos;
        while k < i
            invariant
                pos <= k <= i <= n,
                n == motd@.len(),
                r@ == r0 + motd@.subrange(pos as int, k as int),
            decreases i - k,
        {
            r.push(motd[k]);
            k = k + 1;
            proof {
                assert(r@ =~= r0 + motd@.subrange(pos as int, k as int));
            }
        }
        r.push(NEWLINE);
        let mut c: usize = 0;
        while c < cr_code.len()
            invariant
                c <= cr_code@.len(),
                pos <= i <= n,
                n == motd@.len(),
                r@ == r0 + motd@.subrange(pos as int, i as int) + seq![NEWLINE] + cr_code@.subrange(
                    0,
                    c as int,
                ),
            decreases cr_code@.len() - c,
        {
            r.push(cr_code[c]);
            c = c + 1;
            proof {
                assert(r@ =~= r0 + motd@.subrange(pos as int, i as int) + seq![NEWLINE]
                    + cr_code@.subrange(0, c as int));
            }
        }
        proof {
            assert(cr_code@.subrange(0, cr_code@.len() as int) =~= cr_code@);
            assert(rest.take(i - pos as int) =~= motd@.subrange(pos as int, i as int));
            if i < n {
                assert(rest.skip(i - pos as int + 1) =~= motd@.skip(i as int + 1));
                assert(rendered(rest, cr_code@) == rest.take(i - pos as int) + seq![NEWLINE]
                    + cr_code@ + rendered(motd@.skip(i as int + 1), cr_code@));
                assert(r0 + rendered(rest, cr_code@) =~= r@ + rendered(
                    motd@.skip(i as int + 1),
                    cr_code@,
                ));
            } else {
                assert(rest.take(i - pos as int) =~= rest);
                assert(rendered(rest, cr_code@) == rest + seq![NEWLINE] + cr_code@);
                assert(r@ =~= r0 + rendered(rest, cr_code@));
            }
        }
        if i >= n {
            return r;
        }
        pos = i + 1;
    }
    proof {
        assert(motd@.skip(pos as int) =~= Seq::<u8>::empty());
        assert(first_nl(Seq::<u8>::empty()) == 0);
    }
    let ghost r0 = r@;
    r.push(NEWLINE);
    let mut c: usize = 0;
    while c < cr_code.len()
        invariant
            c <= cr_code@.len(),
            r@ == r0 + seq![NEWLINE] + cr_code@.subrange(0, c as int),
        decreases cr_code@.len() - c,
    {
        r.push(cr_code[c]);
        c = c + 1;
        proof {
            assert(r@ =~= r0 + seq![NEWLINE] + cr_code@.subrange(0, c as int));
        }
    }
    proof {
        assert(cr_code@.subrange(0, cr_code@.len() as int) =~= cr_code@);
        assert(rendered(Seq::<u8>::empty(), cr_code@) == Seq::<u8>::empty() + seq![NEWLINE]
            + cr_code@);
        assert(r@ =~= r0 + rendered(Seq::<u8>::empty(), cr_code@));
    }
    r
}

/// The resolver argument fix-up: some systems hand the message out only when
/// a trailing `noupdate` argument asks for the stored copy, and it is
/// harmless elsewhere — append it unless it is already present.
pub fn with_noupdate(args: Vec<String>) -> (r: Vec<String>)
    ensures
        (exists|i: int| 0 <= i < args@.len() && args@[i]@ == "noupdate"@) ==> r@ == args@,
        !(exists|i: int| 0 <= i < args@.len() && args@[i]@ == "noupdate"@) ==> {
            &&& r@.len() == args@.len() + 1
            &&& r@.subrange(0, args@.len() as int) == args@
            &&& r@.last()@ == "noupdate"@
        },
{
    let marker: String = "noupdate".to_owned();
    let mut i: usize = 0;
    let n = args.len();
    let mut present = false;
    while i < n
        invariant
            i <= n,
            n == args@.len(),
            marker@ == "noupdate"@,
            present <==> exists|j: int| 0 <= j < i && args@[j]@ == "noupdate"@,
        decreases n - i,
    {
        if args[i] == marker {
            present = true;
        }
        i = i + 1;
    }
    let mut r = args;
    if !present {
        let ghost before = r@;
        r.push(marker);
        proof {
            assert(r@.subrange(0, before.len() as int) =~= before);
        }
    }
    r
}

} // verus!
