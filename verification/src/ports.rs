//! Port selection policy: decides which MIDI input port to open from the
//! number of available ports and, when several are available, from one
//! line of interactive input holding a zero-based index.

use vstd::prelude::*;

verus! {

/// Everything that can go wrong while the bridge is set up. Setup errors
/// are fatal: the process exits rather than retrying.
#[derive(Clone, Copy, PartialEq, Eq, Structural, Debug)]
pub enum MidiError {
    /// No MIDI input port is available at all.
    NoInputPorts,
    /// The interactively entered port index did not parse as a number, or
    /// named no available port.
    InvalidPortSelection,
    /// The underlying MIDI subsystem failed to enumerate or connect.
    DriverConnectionFailure,
    /// The plugin binary could not be loaded.
    PluginLoadFailure,
    /// The loaded plugin failed to initialise.
    PluginInitFailure,
}

/// ASCII whitespace, as stripped from the ends of an entered line.
pub open spec fn is_ascii_ws(b: u8) -> bool {
    b == 32 || b == 9 || b == 10 || b == 13
}

/// An ASCII decimal digit.
pub open spec fn is_ascii_digit(b: u8) -> bool {
    48 <= b <= 57
}

/// `s` with leading ASCII whitespace removed.
pub open spec fn trim_start(s: Seq<u8>) -> Seq<u8>
    decreases s.len(),
{
    if s.len() > 0 && is_ascii_ws(s[0]) {
        trim_start(s.drop_first())
    } else {
        s
    }
}

/// `s` with trailing ASCII whitespace removed.
pub open spec fn trim_end(s: Seq<u8>) -> Seq<u8>
    decreases s.len(),
{
    if s.len() > 0 && is_ascii_ws(s.last()) {
        trim_end(s.drop_last())
    } else {
        s
    }
}

/// `s` with ASCII whitespace removed from both ends.
pub open spec fn trimmed(s: Seq<u8>) -> Seq<u8> {
    trim_end(trim_start(s))
}

/// The digits of a trimmed entry: an optional leading plus sign is
/// accepted, as the standard number parser accepts it.
pub open spec fn digits_of(t: Seq<u8>) -> Seq<u8> {
    if t.len() > 0 && t[0] == 43 {
        t.drop_first()
    } else {
        t
    }
}

/// A line names a number exactly when, after trimming and an optional
/// plus sign, it is one or more ASCII digits and nothing else.
pub open spec fn is_numeric_entry(line: Seq<u8>) -> bool {
    let d = digits_of(trimmed(line));
    d.len() > 0 && (forall|i: int| 0 <= i < d.len() ==> is_ascii_digit(d[i]))
}

/// The value of a sequence of ASCII decimal digits, most significant
/// first.
pub open spec fn dec_value(d: Seq<u8>) -> int
    decreases d.len(),
{
    if d.len() == 0 {
        0
    } else {
        dec_value(d.drop_last()) * 10 + (d.last() - 48)
    }
}

/// The index a line of input names, when it names one.
pub open spec fn entered_index(line: Seq<u8>) -> int {
    dec_value(digits_of(trimmed(line)))
}

/// Decides the selection policy from the port count alone: no port at all
/// is an error, a single port is chosen outright as index 0 with no prompt,
/// and more than one port requires a prompted choice (`None`).
pub fn auto_select_port(port_count: usize) -> (r: Result<Option<usize>, MidiError>)
    ensures
        port_count == 0 ==> r == Err::<Option<usize>, MidiError>(MidiError::NoInputPorts),
        port_count == 1 ==> r == Ok::<Option<usize>, MidiError>(Some(0usize)),
        port_count > 1 ==> r == Ok::<Option<usize>, MidiError>(None::<usize>),
{
    if port_count == 0 {
        Err(MidiError::NoInputPorts)
    } else if port_count == 1 {
        Ok(Some(0))
    } else {
        Ok(None)
    }
}

proof fn lemma_trim_start_skip(s: Seq<u8>, k: int)
    requires
        0 <= k <= s.len(),
        forall|j: int| 0 <= j < k ==> is_ascii_ws(s[j]),
    ensures
        trim_start(s) == trim_start(s.subrange(k, s.len() as int)),
    decreases k,
{
    if k == 0 {
        assert(s.subrange(0, s.len() as int) =~= s);
    } else {
        assert(is_ascii_ws(s[0]));
        assert(trim_start(s) == trim_start(s.drop_first()));
        let t = s.drop_first();
        assert(t =~= s.subrange(1, s.len() as int));
        lemma_trim_start_skip(t, k - 1);
        assert(t.subrange(k - 1, t.len() as int) =~= s.subrange(k, s.len() as int));
    }
}

proof fn lemma_trim_end_skip(s: Seq<u8>, k: int)
    requires
        0 <= k <= s.len(),
        forall|j: int| k <= j < s.len() ==> is_ascii_ws(s[j]),
    ensures
        trim_end(s) == trim_end(s.subrange(0, k)),
    decreases s.len() - k,
{
    if k == s.len() {
        assert(s.subrange(0, s.len() as int) =~= s);
    } else {
        assert(is_ascii_ws(s.last()));
        assert(trim_end(s) == trim_end(s.drop_last()));
        let t = s.drop_last();
        assert(t =~= s.subrange(0, s.len() - 1));
        lemma_trim_end_skip(t, k);
        assert(t.subrange(0, k) =~= s.subrange(0, k));
    }
}

/// Parses one entered line as a zero-based port index against the number
/// of available ports. Succeeds exactly when the line, after trimming, is
/// a decimal number naming an available port; any parse failure or
/// out-of-range index is `InvalidPortSelection`.
pub fn parse_port_selection(line: &[u8], port_count: usize) -> (r: Result<usize, MidiError>)
    ensures
        r is Ok <==> is_numeric_entry(line@) && entered_index(line@) < port_count,
        r is Ok ==> r->Ok_0 == entered_index(line@),
        r is Err ==> r->Err_0 == MidiError::InvalidPortSelection,
{
    let ghost s = line@;
    let len = line.len();
    let mut lo: usize = 0;
    while lo < len && is_ws_exec(line[lo])
        invariant
            0 <= lo <= len,
            len == s.len(),
            line@ == s,
            forall|j: int| 0 <= j < lo ==> is_ascii_ws(s[j]),
        decreases len - lo,
    {
        lo += 1;
    }
    proof {
        lemma_trim_start_skip(s, lo as int);
    }
    if lo == len {
        proof {
            assert(s.subrange(lo as int, s.len() as int) =~= Seq::<u8>::empty());
            assert(trimmed(s).len() == 0);
            assert(digits_of(trimmed(s)).len() == 0);
        }
        return Err(MidiError::InvalidPortSelection);
    }
    // s[lo] is not whitespace, so trim_start(s) == s[lo..len]
    proof {
        assert(trim_start(s) =~= s.subrange(lo as int, s.len() as int));
    }
    let mut hi: usize = len;
    while hi > lo && is_ws_exec(line[hi - 1])
        invariant
            lo <= hi <= len,
            len == s.len(),
            line@ == s,
            !is_ascii_ws(s[lo as int]),
            forall|j: int| hi <= j < len ==> is_ascii_ws(s[j]),
        decreases hi,
    {
        hi -= 1;
    }
    proof {
        let ts = trim_start(s);
        assert(ts =~= s.subrange(lo as int, len as int));
        assert(forall|j: int| hi - lo <= j < ts.len() ==> is_ascii_ws(ts[j]));
        lemma_trim_end_skip(ts, hi - lo);
        assert(ts.subrange(0, hi - lo) =~= s.subrange(lo as int, hi as int));
        // the byte before the cut is not whitespace, so trim_end stops there
        assert(hi > lo);
        assert(!is_ascii_ws(s[hi - 1]));
        assert(s.subrange(lo as int, hi as int).last() == s[hi - 1]);
        assert(trimmed(s) =~= s.subrange(lo as int, hi as int));
    }
    // skip an optional leading plus sign
    let dlo: usize = if line[lo] == 43 {
        proof {
            assert(trimmed(s)[0] == 43);
            assert(digits_of(trimmed(s)) =~= s.subrange(lo + 1, hi as int));
        }
        lo + 1
    } else {
        proof {
            assert(digits_of(trimmed(s)) =~= s.subrange(lo as int, hi as int));
        }
        lo
    };
    let ghost d = digits_of(trimmed(s));
    if dlo == hi {
        return Err(MidiError::InvalidPortSelection);
    }
    let mut acc: usize = 0;
    let mut overflowed = false;
    let mut i: usize = dlo;
    while i < hi
        invariant
            dlo <= i <= hi <= len,
            len == s.len(),
            line@ == s,
            d == s.subrange(dlo as int, hi as int),
            d == digits_of(trimmed(s)),
            d.len() > 0,
            forall|j: int| 0 <= j < i - dlo ==> is_ascii_digit(d[j]),
            !overflowed ==> acc == dec_value(d.subrange(0, i - dlo)),
            overflowed ==> dec_value(d.subrange(0, i - dlo)) > usize::MAX,
        decreases hi - i,
    {
        let b = line[i];
        if b < 48 || b > 57 {
            proof {
                assert(d[i - dlo] == s[i as int]);
                assert(!is_ascii_digit(d[i - dlo]));
            }
            return Err(MidiError::InvalidPortSelection);
        }
        let dig: usize = (b - 48) as usize;
        proof {
            let p = d.subrange(0, i - dlo);
            let q = d.subrange(0, i + 1 - dlo);
            assert(q.drop_last() =~= p);
            assert(q.last() == d[i - dlo]);
            assert(d[i - dlo] == s[i as int]);
            assert(dec_value(q) == dec_value(p) * 10 + (b - 48));
        }
        if overflowed {
            proof {
                let p = d.subrange(0, i - dlo);
                assert(dec_value(p) * 10 + (b - 48) > usize::MAX) by (nonlinear_arith)
                    requires
                        dec_value(p) > usize::MAX,
                        b >= 48,
                ;
            }
        } else if acc > (usize::MAX - dig) / 10 {
            proof {
                assert(acc * 10 + dig > usize::MAX) by (nonlinear_arith)
                    requires
                        acc > (usize::MAX - dig) / 10,
                        dig <= usize::MAX,
                ;
            }
            overflowed = true;
        } else {
            proof {
                assert(acc * 10 + dig <= usize::MAX) by (nonlinear_arith)
                    requires
                        acc <= (usize::MAX - dig) / 10,
                        dig <= usize::MAX,
                ;
            }
            acc = acc * 10 + dig;
        }
        i += 1;
    }
    proof {
        assert(d.subrange(0, d.len() as int) =~= d);
        assert(is_numeric_entry(s));
    }
    if overflowed {
        return Err(MidiError::InvalidPortSelection);
    }
    if acc < port_count {
        Ok(acc)
    } else {
        Err(MidiError::InvalidPortSelection)
    }
}

/// Whether a byte is ASCII whitespace, as `trim` treats it.
fn is_ws_exec(b: u8) -> (r: bool)
    ensures
        r == is_ascii_ws(b),
{
    b == 32 || b == 9 || b == 10 || b == 13
}

} // verus!
