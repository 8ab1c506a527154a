//! The audio output session core: choosing the output device by name —
//! preferring a virtual-cable device, else the system default — and the
//! mono-to-N upmix the real-time callback writes, one buffered sample (or
//! silence) replicated into every channel of its frame. Opening the
//! platform stream and running the callback are the driver's work.

use vstd::prelude::*;

use vstd::string::StrSliceExecFns;

verus! {

/// Name prefix of the preferred virtual-cable output device.
pub open spec fn cable_name() -> Seq<char> {
    "CABLE Input"@
}

/// A device name that the selection prefers: it starts with the
/// virtual-cable name.
pub open spec fn is_preferred_name(name: Seq<char>) -> bool {
    cable_name().len() <= name.len() && name.subrange(0, cable_name().len() as int)
        == cable_name()
}

/// Checks the virtual-cable prefix on one device name.
pub fn name_prefers_cable(name: &str) -> (r: bool)
    ensures
        r == is_preferred_name(name@),
{
    let prefix = "CABLE Input";
    proof {
        reveal_strlit("CABLE Input");
    }
    let plen = prefix.unicode_len();
    let nlen = name.unicode_len();
    if nlen < plen {
        return false;
    }
    let mut i: usize = 0;
    while i < plen
        invariant
            plen == cable_name().len(),
            prefix@ == cable_name(),
            i <= plen <= nlen,
            nlen == name@.len(),
            forall|k: int| 0 <= k < i ==> name@[k] == cable_name()[k],
        decreases plen - i,
    {
        let c1 = name.get_char(i);
        let c2 = prefix.get_char(i);
        if c1 != c2 {
            proof {
                if is_preferred_name(name@) {
                    assert(name@.subrange(0, cable_name().len() as int)[i as int]
                        == cable_name()[i as int]);
                }
            }
            return false;
        }
        i += 1;
    }
    proof {
        assert(name@.subrange(0, cable_name().len() as int) =~= cable_name());
    }
    true
}

/// Device preference: the position of the first device whose name starts
/// with the virtual-cable name; `None` sends the caller to the system
/// default output device.
pub fn select_output_device(names: &Vec<String>) -> (r: Option<usize>)
    ensures
        r matches Some(i) ==> i < names@.len() && is_preferred_name(names@[i as int]@) && (forall|
            k: int,
        | 0 <= k < i ==> !is_preferred_name(names@[k]@)),
        r is None ==> forall|k: int| 0 <= k < names@.len() ==> !is_preferred_name(names@[k]@),
{
    let mut i: usize = 0;
    while i < names.len()
        invariant
            i <= names@.len(),
            forall|k: int| 0 <= k < i ==> !is_preferred_name(names@[k]@),
        decreases names@.len() - i,
    {
        if name_prefers_cable(names[i].as_str()) {
            return Some(i);
        }
        i += 1;
    }
    None
}

/// The callback's frame fill as one batch: each input sample is written
/// into every channel of its output frame, in order.
pub fn upmix_frames(samples: &Vec<i16>, channels: usize) -> (out: Vec<i16>)
    requires
        channels >= 1,
        samples@.len() * channels <= usize::MAX,
    ensures
        out@.len() == samples@.len() * channels,
        forall|i: int| 0 <= i < out@.len() ==> out@[i] == samples@[i / channels as int],
{
    let mut out: Vec<i16> = Vec::new();
    let mut f: usize = 0;
    while f < samples.len()
        invariant
            channels >= 1,
            samples@.len() * channels <= usize::MAX,
            f <= samples@.len(),
            out@.len() == f * channels,
            forall|i: int| 0 <= i < out@.len() ==> out@[i] == samples@[i / channels as int],
        decreases samples@.len() - f,
    {
        let v = samples[f];
        proof {
            assert((f + 1) * channels <= samples@.len() * channels) by (nonlinear_arith)
                requires
                    f < samples@.len(),
                    channels >= 1,
            ;
            assert((f + 1) * channels == f * channels + channels) by (nonlinear_arith);
        }
        let mut c: usize = 0;
        while c < channels
            invariant
                channels >= 1,
                f < samples@.len(),
                f * channels + channels <= samples@.len() * channels <= usize::MAX,
                v == samples@[f as int],
                c <= channels,
                out@.len() == f * channels + c,
                forall|i: int| 0 <= i < out@.len() ==> out@[i] == samples@[i / channels as int],
            decreases channels - c,
        {
            proof {
                vstd::arithmetic::div_mod::lemma_fundamental_div_mod_converse(
                    f * channels + c,
                    channels as int,
                    f as int,
                    c as int,
                );
            }
            out.push(v);
            c += 1;
        }
        f += 1;
    }
    out
}

} // verus!
