//! The persistent IPT inventory: what is written at every change, and how
//! a restarted manager rebuilds its state from it.
//!
//! The inventory lists, per selected relay, its identities, its planned
//! retirement, and the identifier and current mark of each IPT at it.  It
//! is encoded as a stream of 64-bit words; decoding accepts exactly the
//! encodings and is proved to give the inventory back.  The keys
//! themselves stay in the keystore: a record refers to them by its
//! identifier, and rebuilding fails if the keystore has lost them.

use vstd::prelude::*;
use crate::config::OnionServiceConfig;
use crate::errors::StartupError;
use crate::ids::{IptLocalId, RelayIds, U256};
use crate::ipt::{Ipt, IptRelay, IptRelayView, IptView, TrackedStatus};
use crate::ipt_mgr::{relays_view, IptManager};
use crate::keystore::{IptKeyRole, Keystore};

verus! {

/// The persisted record of one introduction point.
#[derive(Clone, Copy, PartialEq, Eq, Structural, Debug)]
pub struct IptRecord {
    /// The IPT's persistent local identifier.
    pub lid: IptLocalId,
    /// Whether the IPT was current (offered for publication).
    pub is_current: bool,
}

/// The persisted record of one selected relay and its IPTs.
#[derive(Debug)]
pub struct RelayRecord {
    /// The relay's identities.
    pub relay: RelayIds,
    /// The planned retirement instant.
    pub planned_retirement: u64,
    /// The IPTs at this relay, in selection order.
    pub ipts: Vec<IptRecord>,
}

/// View of [`RelayRecord`].
#[verifier::ext_equal]
pub struct RelayRecordView {
    /// The relay's identities.
    pub relay: RelayIds,
    /// The planned retirement instant.
    pub planned_retirement: u64,
    /// The IPTs at this relay.
    pub ipts: Seq<IptRecord>,
}

impl View for RelayRecord {
    type V = RelayRecordView;

    open spec fn view(&self) -> RelayRecordView {
        RelayRecordView {
            relay: self.relay,
            planned_retirement: self.planned_retirement,
            ipts: self.ipts@,
        }
    }
}

/// The views of a vector of relay records.
pub open spec fn records_view(v: Vec<RelayRecord>) -> Seq<RelayRecordView> {
    Seq::new(v@.len(), |i: int| v@[i]@)
}

/// The inventory a relay list gives rise to.
pub open spec fn inventory_of(rs: Seq<IptRelayView>) -> Seq<RelayRecordView> {
    rs.map_values(
        |r: IptRelayView| RelayRecordView {
            relay: r.relay,
            planned_retirement: r.planned_retirement,
            ipts: r.ipts.map_values(
                |i: IptView| IptRecord { lid: i.lid, is_current: i.is_current },
            ),
        },
    )
}

// ---------- encoding ----------

/// A 256-bit value as four words.
pub open spec fn enc_u256(v: U256) -> Seq<u64> {
    seq![v.w0, v.w1, v.w2, v.w3]
}

/// An optional 256-bit value: a presence word, then the value if present.
pub open spec fn enc_opt_u256(o: Option<U256>) -> Seq<u64> {
    match o {
        None => seq![0u64],
        Some(v) => seq![1u64] + enc_u256(v),
    }
}

/// An IPT identifier as four words.
pub open spec fn enc_lid(l: IptLocalId) -> Seq<u64> {
    seq![l.w0, l.w1, l.w2, l.w3]
}

/// One IPT record: its identifier, then its current mark.
pub open spec fn enc_ipt(r: IptRecord) -> Seq<u64> {
    enc_lid(r.lid) + seq![
        if r.is_current {
            1u64
        } else {
            0u64
        },
    ]
}

/// A list of IPT records, in order.
pub open spec fn enc_ipts(s: Seq<IptRecord>) -> Seq<u64>
    decreases s.len(),
{
    if s.len() == 0 {
        Seq::empty()
    } else {
        enc_ipt(s[0]) + enc_ipts(s.drop_first())
    }
}

/// One relay record: identities, retirement, then its counted IPT list.
pub open spec fn enc_relay(r: RelayRecordView) -> Seq<u64> {
    enc_opt_u256(r.relay.ed) + enc_opt_u256(r.relay.rsa) + seq![r.planned_retirement, r.ipts.len() as u64]
        + enc_ipts(r.ipts)
}

/// A list of relay records, in order.
pub open spec fn enc_relays(s: Seq<RelayRecordView>) -> Seq<u64>
    decreases s.len(),
{
    if s.len() == 0 {
        Seq::empty()
    } else {
        enc_relay(s[0]) + enc_relays(s.drop_first())
    }
}

/// A whole inventory: the relay count, then the relay records.
pub open spec fn enc_inventory(s: Seq<RelayRecordView>) -> Seq<u64> {
    seq![s.len() as u64] + enc_relays(s)
}

// ---------- decoding ----------

/// Take one word off the stream.
pub open spec fn dec_u64(s: Seq<u64>) -> Option<(u64, Seq<u64>)> {
    if s.len() >= 1 {
        Some((s[0], s.drop_first()))
    } else {
        None
    }
}

/// Take a 256-bit value off the stream.
pub open spec fn dec_u256(s: Seq<u64>) -> Option<(U256, Seq<u64>)> {
    if s.len() >= 4 {
        Some((U256 { w0: s[0], w1: s[1], w2: s[2], w3: s[3] }, s.skip(4)))
    } else {
        None
    }
}

/// Take an optional 256-bit value off the stream.
pub open spec fn dec_opt_u256(s: Seq<u64>) -> Option<(Option<U256>, Seq<u64>)> {
    match dec_u64(s) {
        None => None,
        Some((flag, rest)) => if flag == 0 {
            Some((None, rest))
        } else if flag == 1 {
            match dec_u256(rest) {
                None => None,
                Some((v, rest2)) => Some((Some(v), rest2)),
            }
        } else {
            None
        },
    }
}

/// Take an IPT identifier off the stream.
pub open spec fn dec_lid(s: Seq<u64>) -> Option<(IptLocalId, Seq<u64>)> {
    if s.len() >= 4 {
        Some((IptLocalId { w0: s[0], w1: s[1], w2: s[2], w3: s[3] }, s.skip(4)))
    } else {
        None
    }
}

/// Take one IPT record off the stream.
pub open spec fn dec_ipt(s: Seq<u64>) -> Option<(IptRecord, Seq<u64>)> {
    match dec_lid(s) {
        None => None,
        Some((lid, rest)) => match dec_u64(rest) {
            None => None,
            Some((flag, rest2)) => if flag == 0 || flag == 1 {
                Some((IptRecord { lid, is_current: flag == 1 }, rest2))
            } else {
                None
            },
        },
    }
}

/// Take `n` IPT records off the stream.
pub open spec fn dec_ipts(s: Seq<u64>, n: nat) -> Option<(Seq<IptRecord>, Seq<u64>)>
    decreases n,
{
    if n == 0 {
        Some((Seq::empty(), s))
    } else {
        match dec_ipt(s) {
            None => None,
            Some((r, rest)) => match dec_ipts(rest, (n - 1) as nat) {
                None => None,
                Some((rs, rest2)) => Some((seq![r] + rs, rest2)),
            },
        }
    }
}

/// Take one relay record off the stream.
pub open spec fn dec_relay(s: Seq<u64>) -> Option<(RelayRecordView, Seq<u64>)> {
    match dec_opt_u256(s) {
        None => None,
        Some((ed, s1)) => match dec_opt_u256(s1) {
            None => None,
            Some((rsa, s2)) => match dec_u64(s2) {
                None => None,
                Some((ret, s3)) => match dec_u64(s3) {
                    None => None,
                    Some((n, s4)) => match dec_ipts(s4, n as nat) {
                        None => None,
                        Some((ipts, s5)) => Some(
                            (
                                RelayRecordView {
                                    relay: RelayIds { ed, rsa },
                                    planned_retirement: ret,
                                    ipts,
                                },
                                s5,
                            ),
                        ),
                    },
                },
            },
        },
    }
}

/// Take `n` relay records off the stream.
pub open spec fn dec_relays(s: Seq<u64>, n: nat) -> Option<(Seq<RelayRecordView>, Seq<u64>)>
    decreases n,
{
    if n == 0 {
        Some((Seq::empty(), s))
    } else {
        match dec_relay(s) {
            None => None,
            Some((r, rest)) => match dec_relays(rest, (n - 1) as nat) {
                None => None,
                Some((rs, rest2)) => Some((seq![r] + rs, rest2)),
            },
        }
    }
}

/// Decode a whole inventory; the stream must hold nothing else.
pub open spec fn dec_inventory(s: Seq<u64>) -> Option<Seq<RelayRecordView>> {
    match dec_u64(s) {
        None => None,
        Some((n, rest)) => match dec_relays(rest, n as nat) {
            None => None,
            Some((rs, rest2)) => if rest2.len() == 0 {
                Some(rs)
            } else {
                None
            },
        },
    }
}

// ---------- the codec round trip ----------

/// Decoding an encoded optional value gives it back, with the rest of the
/// stream untouched.
proof fn lemma_dec_enc_opt_u256(o: Option<U256>, rest: Seq<u64>)
    ensures
        dec_opt_u256(enc_opt_u256(o) + rest) == Some((o, rest)),
{
    match o {
        None => {
            assert((enc_opt_u256(o) + rest).drop_first() =~= rest);
        },
        Some(v) => {
            let s = enc_opt_u256(o) + rest;
            assert(s.drop_first() =~= enc_u256(v) + rest);
            assert(s.drop_first().skip(4) =~= rest);
        },
    }
}

/// Decoding an encoded IPT record gives it back.
proof fn lemma_dec_enc_ipt(r: IptRecord, rest: Seq<u64>)
    ensures
        dec_ipt(enc_ipt(r) + rest) == Some((r, rest)),
{
    let s = enc_ipt(r) + rest;
    assert(s.skip(4) =~= seq![
        if r.is_current {
            1u64
        } else {
            0u64
        },
    ] + rest);
    assert(s.skip(4).drop_first() =~= rest);
}

/// Decoding an encoded list of IPT records gives it back.
proof fn lemma_dec_enc_ipts(s: Seq<IptRecord>, rest: Seq<u64>)
    ensures
        dec_ipts(enc_ipts(s) + rest, s.len()) == Some((s, rest)),
    decreases s.len(),
{
    if s.len() == 0 {
        assert(enc_ipts(s) + rest =~= rest);
        assert(dec_ipts(rest, 0) == Some((Seq::<IptRecord>::empty(), rest)));
        assert(Seq::<IptRecord>::empty() =~= s);
    } else {
        let tail = s.drop_first();
        assert(enc_ipts(s) + rest =~= enc_ipt(s[0]) + (enc_ipts(tail) + rest));
        lemma_dec_enc_ipt(s[0], enc_ipts(tail) + rest);
        lemma_dec_enc_ipts(tail, rest);
        assert(seq![s[0]] + tail =~= s);
    }
}

/// Decoding an encoded relay record gives it back.
#[verifier::rlimit(50)]
proof fn lemma_dec_enc_relay(r: RelayRecordView, rest: Seq<u64>)
    requires
        r.ipts.len() <= u64::MAX,
    ensures
        dec_relay(enc_relay(r) + rest) == Some((r, rest)),
{
    let after_ids = seq![r.planned_retirement, r.ipts.len() as u64] + enc_ipts(r.ipts) + rest;
    let s_all = enc_relay(r) + rest;
    assert(s_all =~= enc_opt_u256(r.relay.ed) + (enc_opt_u256(r.relay.rsa) + after_ids));
    lemma_dec_enc_opt_u256(r.relay.ed, enc_opt_u256(r.relay.rsa) + after_ids);
    assert(dec_opt_u256(s_all) == Some((r.relay.ed, enc_opt_u256(r.relay.rsa) + after_ids)));
    lemma_dec_enc_opt_u256(r.relay.rsa, after_ids);
    assert(after_ids[0] == r.planned_retirement);
    assert(after_ids.drop_first() =~= seq![r.ipts.len() as u64] + enc_ipts(r.ipts) + rest);
    assert(after_ids.drop_first()[0] == r.ipts.len() as u64);
    assert(after_ids.drop_first().drop_first() =~= enc_ipts(r.ipts) + rest);
    lemma_dec_enc_ipts(r.ipts, rest);
    assert((r.ipts.len() as u64) as nat == r.ipts.len());
    assert(RelayIds { ed: r.relay.ed, rsa: r.relay.rsa } == r.relay);
}

/// Decoding an encoded list of relay records gives it back.
proof fn lemma_dec_enc_relays(s: Seq<RelayRecordView>, rest: Seq<u64>)
    requires
        forall|i: int| 0 <= i < s.len() ==> (#[trigger] s[i]).ipts.len() <= u64::MAX,
    ensures
        dec_relays(enc_relays(s) + rest, s.len()) == Some((s, rest)),
    decreases s.len(),
{
    if s.len() == 0 {
        assert(enc_relays(s) + rest =~= rest);
        assert(Seq::<RelayRecordView>::empty() =~= s);
    } else {
        let tail = s.drop_first();
        assert(enc_relays(s) + rest =~= enc_relay(s[0]) + (enc_relays(tail) + rest));
        lemma_dec_enc_relay(s[0], enc_relays(tail) + rest);
        lemma_dec_enc_relays(tail, rest);
        assert(seq![s[0]] + tail =~= s);
    }
}

/// Persisting and reloading an inventory is a fixed point: decoding an
/// encoded inventory gives exactly the inventory back.
pub proof fn lemma_inventory_round_trip(s: Seq<RelayRecordView>)
    requires
        s.len() <= u64::MAX,
        forall|i: int| 0 <= i < s.len() ==> (#[trigger] s[i]).ipts.len() <= u64::MAX,
    ensures
        dec_inventory(enc_inventory(s)) == Some(s),
{
    assert((s.len() as u64) as nat == s.len());
    let w = enc_inventory(s);
    assert(w.drop_first() =~= enc_relays(s) + Seq::<u64>::empty());
    lemma_dec_enc_relays(s, Seq::empty());
}

/// Appending one record extends the encoding at the end.
proof fn lemma_enc_ipts_push(s: Seq<IptRecord>, e: IptRecord)
    ensures
        enc_ipts(s.push(e)) == enc_ipts(s) + enc_ipt(e),
    decreases s.len(),
{
    reveal_with_fuel(enc_ipts, 3);
    if s.len() == 0 {
        assert(s.push(e)[0] == e);
        assert(s.push(e).drop_first() =~= Seq::<IptRecord>::empty());
        assert(enc_ipts(s.push(e)) =~= enc_ipts(s) + enc_ipt(e));
    } else {
        assert(s.push(e)[0] == s[0]);
        assert(s.push(e).drop_first() =~= s.drop_first().push(e));
        lemma_enc_ipts_push(s.drop_first(), e);
        assert(enc_ipts(s.push(e)) =~= enc_ipts(s) + enc_ipt(e));
    }
}

/// Appending one record extends the encoding at the end.
proof fn lemma_enc_relays_push(s: Seq<RelayRecordView>, e: RelayRecordView)
    ensures
        enc_relays(s.push(e)) == enc_relays(s) + enc_relay(e),
    decreases s.len(),
{
    reveal_with_fuel(enc_relays, 3);
    if s.len() == 0 {
        assert(s.push(e)[0] == e);
        assert(s.push(e).drop_first() =~= Seq::<RelayRecordView>::empty());
        assert(enc_relays(s.push(e)) =~= enc_relays(s) + enc_relay(e));
    } else {
        assert(s.push(e)[0] == s[0]);
        assert(s.push(e).drop_first() =~= s.drop_first().push(e));
        lemma_enc_relays_push(s.drop_first(), e);
        assert(enc_relays(s.push(e)) =~= enc_relays(s) + enc_relay(e));
    }
}

// ---------- executable codec ----------

/// Append the encoding of one optional 256-bit value.
fn push_opt_u256(w: &mut Vec<u64>, o: Option<U256>)
    ensures
        final(w)@ == old(w)@ + enc_opt_u256(o),
{
    let ghost w0 = w@;
    match o {
        None => {
            w.push(0);
        },
        Some(v) => {
            w.push(1);
            w.push(v.w0);
            w.push(v.w1);
            w.push(v.w2);
            w.push(v.w3);
        },
    }
    proof {
        assert(w@ =~= w0 + enc_opt_u256(o));
    }
}

/// Encode the inventory as a word stream.
pub fn encode_inventory(recs: &Vec<RelayRecord>) -> (w: Vec<u64>)
    requires
        recs@.len() <= u64::MAX,
    ensures
        w@ == enc_inventory(records_view(*recs)),
{
    let ghost rv = records_view(*recs);
    let mut w: Vec<u64> = Vec::new();
    w.push(recs.len() as u64);
    let n = recs.len();
    let mut i: usize = 0;
    while i < n
        invariant
            i <= n,
            n == rv.len(),
            rv == records_view(*recs),
            rv.len() <= u64::MAX,
            w@ == seq![rv.len() as u64] + enc_relays(rv.take(i as int)),
        decreases n - i,
    {
        let rec = &recs[i];
        proof {
            assert(rec@ == rv[i as int]);
            assert(rv.take(i + 1).drop_last() =~= rv.take(i as int));
            lemma_enc_relays_push(rv.take(i as int), rv[i as int]);
            assert(rv.take(i + 1) =~= rv.take(i as int).push(rv[i as int]));
        }
        let ghost wpre = w@;
        push_opt_u256(&mut w, rec.relay.ed);
        push_opt_u256(&mut w, rec.relay.rsa);
        w.push(rec.planned_retirement);
        w.push(rec.ipts.len() as u64);
        let ghost ivs = rec@.ipts;
        let m = rec.ipts.len();
        let ghost whdr = w@;
        let mut j: usize = 0;
        while j < m
            invariant
                j <= m,
                m == ivs.len(),
                ivs == rec@.ipts,
                w@ == whdr + enc_ipts(ivs.take(j as int)),
            decreases m - j,
        {
            let ip = rec.ipts[j];
            proof {
                assert(ip == ivs[j as int]);
                lemma_enc_ipts_push(ivs.take(j as int), ivs[j as int]);
                assert(ivs.take(j + 1) =~= ivs.take(j as int).push(ivs[j as int]));
            }
            let ghost wip = w@;
            w.push(ip.lid.w0);
            w.push(ip.lid.w1);
            w.push(ip.lid.w2);
            w.push(ip.lid.w3);
            w.push(if ip.is_current {
                1
            } else {
                0
            });
            proof {
                assert(w@ =~= wip + enc_ipt(ip));
            }
            j += 1;
        }
        proof {
            assert(ivs.take(m as int) =~= ivs);
            assert(whdr =~= wpre + enc_opt_u256(rec@.relay.ed) + enc_opt_u256(rec@.relay.rsa)
                + seq![rec@.planned_retirement, rec@.ipts.len() as u64]);
            assert(w@ =~= wpre + enc_relay(rv[i as int]));
            assert(w@ =~= seq![rv.len() as u64] + enc_relays(rv.take(i + 1)));
        }
        i += 1;
    }
    proof {
        assert(rv.take(n as int) =~= rv);
    }
    w
}

/// Take one word at `pos`.
fn read_u64(w: &Vec<u64>, pos: usize) -> (r: Option<(u64, usize)>)
    requires
        pos <= w@.len(),
    ensures
        match r {
            Some(vp) => vp.1 <= w@.len() && dec_u64(w@.skip(pos as int)) == Some(
                (vp.0, w@.skip(vp.1 as int)),
            ),
            None => dec_u64(w@.skip(pos as int)) is None,
        },
{
    if pos < w.len() {
        proof {
            assert(w@.skip(pos as int)[0] == w@[pos as int]);
            assert(w@.skip(pos as int).drop_first() =~= w@.skip(pos + 1));
        }
        Some((w[pos], pos + 1))
    } else {
        None
    }
}

/// Take an optional 256-bit value at `pos`.
fn read_opt_u256(w: &Vec<u64>, pos: usize) -> (r: Option<(Option<U256>, usize)>)
    requires
        pos <= w@.len(),
    ensures
        match r {
            Some(vp) => vp.1 <= w@.len() && dec_opt_u256(w@.skip(pos as int)) == Some(
                (vp.0, w@.skip(vp.1 as int)),
            ),
            None => dec_opt_u256(w@.skip(pos as int)) is None,
        },
{
    let (flag, p1) = match read_u64(w, pos) {
        Some(x) => x,
        None => {
            return None;
        },
    };
    if flag == 0 {
        Some((None, p1))
    } else if flag == 1 {
        if w.len() - p1 >= 4 {
            let v = U256 { w0: w[p1], w1: w[p1 + 1], w2: w[p1 + 2], w3: w[p1 + 3] };
            proof {
                let s = w@.skip(p1 as int);
                assert(s[0] == w@[p1 as int] && s[1] == w@[p1 + 1] && s[2] == w@[p1 + 2] && s[3]
                    == w@[p1 + 3]);
                assert(s.skip(4) =~= w@.skip(p1 + 4));
            }
            Some((Some(v), p1 + 4))
        } else {
            proof {
                assert(w@.skip(p1 as int).len() < 4);
            }
            None
        }
    } else {
        None
    }
}

/// Take one IPT record at `pos`.
fn read_ipt(w: &Vec<u64>, pos: usize) -> (r: Option<(IptRecord, usize)>)
    requires
        pos <= w@.len(),
    ensures
        match r {
            Some(vp) => vp.1 <= w@.len() && dec_ipt(w@.skip(pos as int)) == Some(
                (vp.0, w@.skip(vp.1 as int)),
            ),
            None => dec_ipt(w@.skip(pos as int)) is None,
        },
{
    if w.len() - pos >= 4 {
        let lid = IptLocalId { w0: w[pos], w1: w[pos + 1], w2: w[pos + 2], w3: w[pos + 3] };
        proof {
            let s = w@.skip(pos as int);
            assert(s[0] == w@[pos as int] && s[1] == w@[pos + 1] && s[2] == w@[pos + 2] && s[3]
                == w@[pos + 3]);
            assert(s.skip(4) =~= w@.skip(pos + 4));
        }
        match read_u64(w, pos + 4) {
            Some((flag, p2)) => {
                if flag == 0 || flag == 1 {
                    Some((IptRecord { lid, is_current: flag == 1 }, p2))
                } else {
                    None
                }
            },
            None => None,
        }
    } else {
        proof {
            assert(w@.skip(pos as int).len() < 4);
        }
        None
    }
}

/// Take one relay record at `pos`.
fn read_relay(w: &Vec<u64>, pos: usize) -> (r: Option<(RelayRecord, usize)>)
    requires
        pos <= w@.len(),
    ensures
        match r {
            Some(vp) => vp.1 <= w@.len() && dec_relay(w@.skip(pos as int)) == Some(
                (vp.0@, w@.skip(vp.1 as int)),
            ),
            None => dec_relay(w@.skip(pos as int)) is None,
        },
{
    let (ed, p1) = match read_opt_u256(w, pos) {
        Some(x) => x,
        None => {
            return None;
        },
    };
    let (rsa, p2) = match read_opt_u256(w, p1) {
        Some(x) => x,
        None => {
            return None;
        },
    };
    let (ret, p3) = match read_u64(w, p2) {
        Some(x) => x,
        None => {
            return None;
        },
    };
    let (m, p4) = match read_u64(w, p3) {
        Some(x) => x,
        None => {
            return None;
        },
    };
    let mut ipts: Vec<IptRecord> = Vec::new();
    let mut j: u64 = 0;
    let mut q: usize = p4;
    while j < m
        invariant
            j <= m,
            q <= w@.len(),
            p4 <= w@.len(),
            pos <= w@.len(),
            ipts@.len() == j,
            dec_opt_u256(w@.skip(pos as int)) == Some((ed, w@.skip(p1 as int))),
            dec_opt_u256(w@.skip(p1 as int)) == Some((rsa, w@.skip(p2 as int))),
            dec_u64(w@.skip(p2 as int)) == Some((ret, w@.skip(p3 as int))),
            dec_u64(w@.skip(p3 as int)) == Some((m, w@.skip(p4 as int))),
            dec_ipts(w@.skip(q as int), (m - j) as nat) matches Some(pair) ==> dec_ipts(
                w@.skip(p4 as int),
                m as nat,
            ) == Some((ipts@ + pair.0, pair.1)),
            dec_ipts(w@.skip(q as int), (m - j) as nat) is None ==> dec_ipts(
                w@.skip(p4 as int),
                m as nat,
            ) is None,
        decreases m - j,
    {
        let (ip, q2) = match read_ipt(w, q) {
            Some(x) => x,
            None => {
                proof {
                    assert(dec_ipts(w@.skip(q as int), (m - j) as nat) is None);
                }
                return None;
            },
        };
        let ghost pre = ipts@;
        ipts.push(ip);
        proof {
            assert(ipts@ =~= pre.push(ip));
            assert forall|pair: (Seq<IptRecord>, Seq<u64>)|
                dec_ipts(w@.skip(q2 as int), (m - j - 1) as nat) == Some(pair) implies pre + (
            seq![ip] + pair.0) =~= ipts@ + pair.0 by {}
        }
        q = q2;
        j += 1;
    }
    proof {
        assert(dec_ipts(w@.skip(q as int), 0) == Some(
            (Seq::<IptRecord>::empty(), w@.skip(q as int)),
        ));
        assert(ipts@ + Seq::<IptRecord>::empty() =~= ipts@);
    }
    let rec = RelayRecord { relay: RelayIds { ed, rsa }, planned_retirement: ret, ipts };
    Some((rec, q))
}

/// Decode a whole inventory; `None` if the stream is not exactly an
/// encoded inventory.
pub fn decode_inventory(w: &Vec<u64>) -> (r: Option<Vec<RelayRecord>>)
    ensures
        match r {
            Some(recs) => dec_inventory(w@) == Some(records_view(recs)),
            None => dec_inventory(w@) is None,
        },
{
    proof {
        assert(w@.skip(0) =~= w@);
    }
    let (n, mut pos) = match read_u64(w, 0) {
        Some(x) => x,
        None => {
            return None;
        },
    };
    let mut recs: Vec<RelayRecord> = Vec::new();
    let mut i: u64 = 0;
    while i < n
        invariant
            i <= n,
            pos <= w@.len(),
            recs@.len() == i,
            dec_relays(w@.skip(pos as int), (n - i) as nat) matches Some(pair) ==> dec_relays(
                w@.drop_first(),
                n as nat,
            ) == Some((records_view(recs) + pair.0, pair.1)),
            dec_relays(w@.skip(pos as int), (n - i) as nat) is None ==> dec_relays(
                w@.drop_first(),
                n as nat,
            ) is None,
            dec_u64(w@) == Some((n, w@.drop_first())),
        decreases n - i,
    {
        let (rec, q) = match read_relay(w, pos) {
            Some(x) => x,
            None => {
                proof {
                    assert(dec_relays(w@.skip(pos as int), (n - i) as nat) is None);
                }
                return None;
            },
        };
        let ghost pre = records_view(recs);
        recs.push(rec);
        proof {
            assert(records_view(recs) =~= pre.push(rec@));
            assert forall|pair: (Seq<RelayRecordView>, Seq<u64>)|
                dec_relays(w@.skip(q as int), (n - i - 1) as nat) == Some(pair) implies pre + (
            seq![rec@] + pair.0) =~= records_view(recs) + pair.0 by {}
        }
        pos = q;
        i += 1;
    }
    if pos != w.len() {
        proof {
            assert(dec_relays(w@.skip(pos as int), 0) == Some(
                (Seq::<RelayRecordView>::empty(), w@.skip(pos as int)),
            ));
            assert(w@.skip(pos as int).len() != 0);
        }
        return None;
    }
    proof {
        assert(dec_relays(w@.skip(pos as int), 0) == Some(
            (Seq::<RelayRecordView>::empty(), w@.skip(pos as int)),
        ));
        assert(records_view(recs) + Seq::<RelayRecordView>::empty() =~= records_view(recs));
        assert(w@.skip(pos as int).len() == 0);
    }
    Some(recs)
}

// ---------- the manager's inventory ----------

impl IptManager {
    /// The inventory to persist: per relay, its identities, retirement,
    /// and each IPT's identifier and current mark.
    pub fn inventory(&self) -> (r: Vec<RelayRecord>)
        ensures
            records_view(r) == inventory_of(self.rv()),
    {
        let ghost rs = self.rv();
        let n = self.irelays.len();
        let mut out: Vec<RelayRecord> = Vec::new();
        let mut i: usize = 0;
        while i < n
            invariant
                i <= n,
                n == rs.len(),
                rs == self.rv(),
                out@.len() == i,
                forall|x: int|
                    0 <= x < i ==> #[trigger] out@[x]@ == inventory_of(rs)[x],
            decreases n - i,
        {
            let rel = &self.irelays[i];
            let ghost ivs = rs[i as int].ipts;
            let m = rel.ipts.len();
            let mut ipts: Vec<IptRecord> = Vec::new();
            let mut j: usize = 0;
            while j < m
                invariant
                    j <= m,
                    m == ivs.len(),
                    m == rel.ipts@.len(),
                    forall|x: int| 0 <= x < m ==> #[trigger] rel.ipts@[x]@ == ivs[x],
                    ipts@.len() == j,
                    forall|x: int|
                        0 <= x < j ==> #[trigger] ipts@[x] == (IptRecord {
                            lid: ivs[x].lid,
                            is_current: ivs[x].is_current,
                        }),
                decreases m - j,
            {
                proof {
                    assert(rel.ipts@[j as int]@ == ivs[j as int]);
                }
                ipts.push(IptRecord { lid: rel.ipts[j].lid, is_current: rel.ipts[j].is_current });
                j += 1;
            }
            let rec = RelayRecord {
                relay: rel.relay,
                planned_retirement: rel.planned_retirement,
                ipts,
            };
            proof {
                assert(rec@.ipts =~= ivs.map_values(
                    |x: IptView| IptRecord { lid: x.lid, is_current: x.is_current },
                ));
                assert(rec@ =~= inventory_of(rs)[i as int]);
            }
            out.push(rec);
            i += 1;
        }
        proof {
            assert(records_view(out) =~= inventory_of(rs));
        }
        out
    }

    /// Rebuild a manager from a persisted inventory.
    ///
    /// Every recorded IPT must still have both its key pairs in the
    /// keystore; losing one is the startup error `MissingIptKey`.  The
    /// rebuilt IPTs start out `Establishing` from `now`, with no known
    /// descriptor expiry (the publisher's map is imported on the first
    /// cycle); the caller starts an establisher for each returned
    /// identifier, with the keys expected to exist.
    pub fn from_records(
        config: OnionServiceConfig,
        ks: &Keystore,
        records: &Vec<RelayRecord>,
        now: u64,
    ) -> (r: Result<IptManager, StartupError>)
        ensures
            !ks.has_identity ==> r == Err::<IptManager, StartupError>(
                StartupError::MissingIdentityKeys,
            ),
            ks.has_identity ==> ((r is Ok) <==> (forall|k: int, j: int|
                0 <= k < records_view(*records).len() && 0 <= j < records_view(
                    *records,
                )[k].ipts.len() ==> {
                    let lid = (#[trigger] records_view(*records)[k].ipts[j]).lid;
                    ks.spec_contains(IptKeyRole::KSid, lid) && ks.spec_contains(
                        IptKeyRole::KHssNtor,
                        lid,
                    )
                })),
            r matches Ok(mgr) ==> {
                &&& mgr.config == config
                &&& mgr.last_irelay_selection_ok
                &&& mgr.create_retry_wake is None
                &&& inventory_of(mgr.rv()) == records_view(*records)
                &&& crate::ipt_mgr::keys_invariant(mgr.rv(), *ks)
                &&& forall|k: int, j: int|
                    0 <= k < mgr.rv().len() && 0 <= j < mgr.rv()[k].ipts.len() ==> {
                        let ip = #[trigger] mgr.rv()[k].ipts[j];
                        ip.status_last == crate::ipt::TrackedStatusView::Establishing {
                            started: now,
                        } && ip.last_descriptor_expiry_including_slop is None
                    }
            },
            ks.has_identity ==> (match r {
                Ok(_) => true,
                Err(e) => match e {
                    StartupError::MissingIptKey { lid } => exists|k: int, j: int|
                        {
                            &&& 0 <= k < records_view(*records).len()
                            &&& 0 <= j < records_view(*records)[k].ipts.len()
                            &&& (#[trigger] records_view(*records)[k].ipts[j]).lid == lid
                            &&& !(ks.spec_contains(IptKeyRole::KSid, lid) && ks.spec_contains(
                                IptKeyRole::KHssNtor,
                                lid,
                            ))
                            &&& forall|k2: int, j2: int|
                                0 <= k2 < records_view(*records).len() && 0 <= j2 < records_view(
                                    *records,
                                )[k2].ipts.len() && (k2 < k || (k2 == k && j2 < j)) ==> {
                                    let l2 = (#[trigger] records_view(*records)[k2].ipts[j2]).lid;
                                    ks.spec_contains(IptKeyRole::KSid, l2) && ks.spec_contains(
                                        IptKeyRole::KHssNtor,
                                        l2,
                                    )
                                }
                        },
                    _ => false,
                },
            }),
    {
        if !ks.has_identity {
            return Err(StartupError::MissingIdentityKeys);
        }
        let ghost recs = records_view(*records);
        let n = records.len();
        let mut irelays: Vec<IptRelay> = Vec::new();
        let mut i: usize = 0;
        while i < n
            invariant
                ks.has_identity,
                i <= n,
                n == recs.len(),
                recs == records_view(*records),
                irelays@.len() == i,
                forall|x: int, j: int|
                    0 <= x < i && 0 <= j < recs[x].ipts.len() ==> {
                        let lid = (#[trigger] recs[x].ipts[j]).lid;
                        ks.spec_contains(IptKeyRole::KSid, lid) && ks.spec_contains(
                            IptKeyRole::KHssNtor,
                            lid,
                        )
                    },
                forall|x: int|
                    0 <= x < i ==> {
                        let rv = #[trigger] irelays@[x]@;
                        &&& rv.relay == recs[x].relay
                        &&& rv.planned_retirement == recs[x].planned_retirement
                        &&& rv.ipts.len() == recs[x].ipts.len()
                        &&& forall|j: int|
                            0 <= j < rv.ipts.len() ==> {
                                let ip = #[trigger] rv.ipts[j];
                                &&& ip.lid == recs[x].ipts[j].lid
                                &&& ip.is_current == recs[x].ipts[j].is_current
                                &&& ip.status_last
                                    == crate::ipt::TrackedStatusView::Establishing { started: now }
                                &&& ip.last_descriptor_expiry_including_slop is None
                                &&& ks.spec_lookup(IptKeyRole::KSid, ip.lid) == Some(ip.k_sid)
                                &&& ks.spec_lookup(IptKeyRole::KHssNtor, ip.lid) == Some(
                                    ip.k_hss_ntor,
                                )
                            }
                    },
            decreases n - i,
        {
            let rec = &records[i];
            let m = rec.ipts.len();
            let mut ipts: Vec<Ipt> = Vec::new();
            let mut j: usize = 0;
            while j < m
                invariant
                    ks.has_identity,
                    j <= m,
                    i < n,
                    n == recs.len(),
                    recs == records_view(*records),
                    m == rec.ipts@.len(),
                    rec@ == recs[i as int],
                    forall|k2: int, j2: int|
                        0 <= k2 < i && 0 <= j2 < recs[k2].ipts.len() ==> {
                            let l2 = (#[trigger] recs[k2].ipts[j2]).lid;
                            ks.spec_contains(IptKeyRole::KSid, l2) && ks.spec_contains(
                                IptKeyRole::KHssNtor,
                                l2,
                            )
                        },
                    ipts@.len() == j,
                    forall|x: int|
                        0 <= x < j ==> {
                            let ip = #[trigger] ipts@[x]@;
                            &&& ip.lid == recs[i as int].ipts[x].lid
                            &&& ip.is_current == recs[i as int].ipts[x].is_current
                            &&& ip.status_last == crate::ipt::TrackedStatusView::Establishing {
                                started: now,
                            }
                            &&& ip.last_descriptor_expiry_including_slop is None
                            &&& ks.spec_lookup(IptKeyRole::KSid, ip.lid) == Some(ip.k_sid)
                            &&& ks.spec_lookup(IptKeyRole::KHssNtor, ip.lid) == Some(ip.k_hss_ntor)
                        },
                    forall|x: int|
                        0 <= x < j ==> {
                            let lid = (#[trigger] recs[i as int].ipts[x]).lid;
                            ks.spec_contains(IptKeyRole::KSid, lid) && ks.spec_contains(
                                IptKeyRole::KHssNtor,
                                lid,
                            )
                        },
                decreases m - j,
            {
                let irec = rec.ipts[j];
                proof {
                    assert(recs[i as int].ipts[j as int] == irec);
                }
                let k_sid = match ks.get(IptKeyRole::KSid, irec.lid) {
                    Some(k) => k,
                    None => {
                        proof {
                            assert(!ks.spec_contains(IptKeyRole::KSid, recs[i as int].ipts[j as int].lid));
                        }
                        proof {
                            assert(recs[i as int].ipts[j as int].lid == irec.lid);
                            assert forall|k2: int, j2: int|
                                0 <= k2 < recs.len() && 0 <= j2 < recs[k2].ipts.len() && (k2
                                    < i as int || (k2 == i as int && j2 < j as int)) implies {
                                let l2 = (#[trigger] recs[k2].ipts[j2]).lid;
                                ks.spec_contains(IptKeyRole::KSid, l2) && ks.spec_contains(
                                    IptKeyRole::KHssNtor,
                                    l2,
                                )
                            } by {
                                if k2 == i as int {
                                    assert(ipts@[j2]@.lid == recs[i as int].ipts[j2].lid);
                                    assert(ks.spec_lookup(IptKeyRole::KSid, ipts@[j2]@.lid)
                                        == Some(ipts@[j2]@.k_sid));
                                }
                            }
                        }
                        return Err(StartupError::MissingIptKey { lid: irec.lid });
                    },
                };
                let k_hss_ntor = match ks.get(IptKeyRole::KHssNtor, irec.lid) {
                    Some(k) => k,
                    None => {
                        proof {
                            assert(!ks.spec_contains(IptKeyRole::KHssNtor, recs[i as int].ipts[j as int].lid));
                        }
                        proof {
                            assert(recs[i as int].ipts[j as int].lid == irec.lid);
                            assert forall|k2: int, j2: int|
                                0 <= k2 < recs.len() && 0 <= j2 < recs[k2].ipts.len() && (k2
                                    < i as int || (k2 == i as int && j2 < j as int)) implies {
                                let l2 = (#[trigger] recs[k2].ipts[j2]).lid;
                                ks.spec_contains(IptKeyRole::KSid, l2) && ks.spec_contains(
                                    IptKeyRole::KHssNtor,
                                    l2,
                                )
                            } by {
                                if k2 == i as int {
                                    assert(ipts@[j2]@.lid == recs[i as int].ipts[j2].lid);
                                    assert(ks.spec_lookup(IptKeyRole::KSid, ipts@[j2]@.lid)
                                        == Some(ipts@[j2]@.k_sid));
                                }
                            }
                        }
                        return Err(StartupError::MissingIptKey { lid: irec.lid });
                    },
                };
                ipts.push(
                    Ipt {
                        lid: irec.lid,
                        k_sid,
                        k_hss_ntor,
                        status_last: TrackedStatus::Establishing { started: now },
                        last_descriptor_expiry_including_slop: None,
                        is_current: irec.is_current,
                    },
                );
                j += 1;
            }
            irelays.push(
                IptRelay { relay: rec.relay, planned_retirement: rec.planned_retirement, ipts },
            );
            i += 1;
        }
        let mgr = IptManager {
            config,
            irelays,
            last_irelay_selection_ok: true,
            create_retry_wake: None,
        };
        proof {
            assert(inventory_of(mgr.rv()) =~~= recs);
        }
        Ok(mgr)
    }
}

} // verus!

