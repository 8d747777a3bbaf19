use vstd::prelude::*;

use crate::text::{decimal, join, join_strings, u64_to_decimal};

verus! {

/// Nanoseconds in one second.
pub const NANOS_PER_SEC: u32 = 1_000_000_000;

/// A span of time, kept as whole seconds and the nanoseconds below one second.
/// Its view is the whole span in nanoseconds.
#[derive(Clone, Copy, Debug)]
pub struct TimeSpan {
    secs: u64,
    nanos: u32,
}

impl TimeSpan {
    #[verifier::type_invariant]
    spec fn subsec_in_range(self) -> bool {
        self.nanos < NANOS_PER_SEC
    }

    /// A span of `secs` whole seconds.
    pub fn from_secs(secs: u64) -> (t: TimeSpan)
        ensures
            t@ == secs * 1_000_000_000,
    {
        TimeSpan { secs, nanos: 0 }
    }

    /// The empty span.
    pub fn zero() -> (t: TimeSpan)
        ensures
            t@ == 0,
    {
        TimeSpan { secs: 0, nanos: 0 }
    }

    /// A span of `secs` seconds and `nanos` nanoseconds; nanoseconds past one
    /// second carry into the seconds.
    pub fn new(secs: u64, nanos: u32) -> (t: TimeSpan)
        requires
            secs + nanos / 1_000_000_000 <= u64::MAX,
        ensures
            t@ == secs * 1_000_000_000 + nanos,
    {
        let carry: u64 = (nanos / NANOS_PER_SEC) as u64;
        let rest: u32 = nanos % NANOS_PER_SEC;
        assert(nanos == carry * 1_000_000_000 + rest) by (nonlinear_arith)
            requires
                carry == nanos / 1_000_000_000,
                rest == nanos % 1_000_000_000,
        ;
        TimeSpan { secs: secs + carry, nanos: rest }
    }

    /// Whole seconds of the span.
    pub fn as_secs(&self) -> (r: u64)
        ensures
            r == self@ / 1_000_000_000,
    {
        proof {
            use_type_invariant(self);
            lemma_split_nanos(self.secs as nat, self.nanos as nat);
        }
        self.secs
    }

    /// Nanoseconds of the span below its whole seconds.
    pub fn subsec_nanos(&self) -> (r: u32)
        ensures
            r == self@ % 1_000_000_000,
    {
        proof {
            use_type_invariant(self);
            lemma_split_nanos(self.secs as nat, self.nanos as nat);
        }
        self.nanos
    }

    /// Whether the span is empty.
    pub fn is_zero(&self) -> (b: bool)
        ensures
            b == (self@ == 0),
    {
        self.secs == 0 && self.nanos == 0
    }

    /// Whether this span is no longer than `other`.
    pub fn le(&self, other: &TimeSpan) -> (b: bool)
        ensures
            b == (self@ <= other@),
    {
        proof {
            use_type_invariant(self);
            use_type_invariant(other);
        }
        self.secs < other.secs || (self.secs == other.secs && self.nanos <= other.nanos)
    }

    /// `self - other`, or `None` when `other` is the longer span.
    pub fn checked_sub(&self, other: &TimeSpan) -> (r: Option<TimeSpan>)
        ensures
            r is Some <==> self@ >= other@,
            r matches Some(d) ==> d@ == self@ - other@,
    {
        proof {
            use_type_invariant(self);
            use_type_invariant(other);
        }
        if self.secs < other.secs {
            return None;
        }
        let secs = self.secs - other.secs;
        if self.nanos >= other.nanos {
            Some(TimeSpan { secs, nanos: self.nanos - other.nanos })
        } else if secs >= 1 {
            Some(TimeSpan { secs: secs - 1, nanos: self.nanos + NANOS_PER_SEC - other.nanos })
        } else {
            None
        }
    }
}

impl View for TimeSpan {
    type V = nat;

    closed spec fn view(&self) -> nat {
        (self.secs * 1_000_000_000 + self.nanos) as nat
    }
}

proof fn lemma_split_nanos(secs: nat, nanos: nat)
    requires
        nanos < 1_000_000_000,
    ensures
        (secs * 1_000_000_000 + nanos) / 1_000_000_000 == secs,
        (secs * 1_000_000_000 + nanos) % 1_000_000_000 == nanos,
{
    vstd::arithmetic::div_mod::lemma_fundamental_div_mod_converse(
        (secs * 1_000_000_000 + nanos) as int,
        1_000_000_000,
        secs as int,
        nanos as int,
    );
}

/// `"{n} {unit}"`, with an `s` after the unit unless `n` is one.
pub open spec fn plural_text(n: nat, unit: Seq<char>) -> Seq<char> {
    decimal(n) + seq![' '] + unit + if n == 1 {
        Seq::<char>::empty()
    } else {
        seq!['s']
    }
}

/// The count of `unit`s, in words: `plural(5, "item")` is `"5 items"`.
pub fn plural(n: u64, unit: &str) -> (s: String)
    ensures
        s@ == plural_text(n as nat, unit@),
{
    let mut s = u64_to_decimal(n);
    crate::text::push_char(&mut s, ' ');
    s.append(unit);
    if n != 1 {
        crate::text::push_char(&mut s, 's');
    }
    s
}

/// Whole days, then the hours, minutes and seconds left over, of `secs` seconds.
pub open spec fn day_count(secs: nat) -> nat {
    secs / 86_400
}

pub open spec fn hour_count(secs: nat) -> nat {
    (secs % 86_400) / 3600
}

pub open spec fn minute_count(secs: nat) -> nat {
    ((secs % 86_400) % 3600) / 60
}

pub open spec fn second_count(secs: nat) -> nat {
    ((secs % 86_400) % 3600) % 60
}

/// The units of `secs` that are not zero, largest first; the seconds also
/// when every unit is zero.
pub open spec fn humanize_parts(secs: nat) -> Seq<Seq<char>> {
    let d = if day_count(secs) > 0 {
        seq![plural_text(day_count(secs), "day"@)]
    } else {
        Seq::empty()
    };
    let h = if hour_count(secs) > 0 {
        d.push(plural_text(hour_count(secs), "hour"@))
    } else {
        d
    };
    let m = if minute_count(secs) > 0 {
        h.push(plural_text(minute_count(secs), "minute"@))
    } else {
        h
    };
    if second_count(secs) > 0 || m.len() == 0 {
        m.push(plural_text(second_count(secs), "second"@))
    } else {
        m
    }
}

/// A whole number of seconds in words, such as `"1 hour, 5 seconds"`.
pub open spec fn humanize_text(secs: nat) -> Seq<char> {
    join(humanize_parts(secs), ", "@)
}

/// The whole seconds of `d` in words, such as `"2 days, 3 hours, 4 minutes, 5 seconds"`.
pub fn humanize(d: TimeSpan) -> (s: String)
    ensures
        s@ == humanize_text(d@ / 1_000_000_000),
{
    let total = d.as_secs();
    let ghost t = total as nat;
    let mut secs = total;
    let days = secs / 86_400;
    secs = secs % 86_400;
    let hours = secs / 3600;
    secs = secs % 3600;
    let minutes = secs / 60;
    secs = secs % 60;
    let mut parts: Vec<String> = Vec::new();
    if days > 0 {
        parts.push(plural(days, "day"));
    }
    if hours > 0 {
        parts.push(plural(hours, "hour"));
    }
    if minutes > 0 {
        parts.push(plural(minutes, "minute"));
    }
    if secs > 0 || parts.len() == 0 {
        parts.push(plural(secs, "second"));
    }
    assert(parts.deep_view() == humanize_parts(t));
    join_strings(&parts, ", ")
}

/// What the handshake label reads of one peer: when it last completed a handshake,
/// as a span since the Unix epoch (zero if never).
#[derive(Clone, Copy, Debug)]
pub struct PeerInfo {
    pub latest_handshake: TimeSpan,
}

/// The handshake times of the peers, in nanoseconds.
pub open spec fn handshakes(peers: Seq<PeerInfo>) -> Seq<nat> {
    peers.map_values(|p: PeerInfo| p.latest_handshake@)
}

/// The largest element of `s`, zero for an empty sequence.
pub open spec fn seq_max(s: Seq<nat>) -> nat
    decreases s.len(),
{
    if s.len() == 0 {
        0
    } else {
        let m = seq_max(s.drop_last());
        if s.last() > m {
            s.last()
        } else {
            m
        }
    }
}

/// The label for the most recent handshake across `peers` at time `now`
/// (nanoseconds): none when no peer ever completed one, or when that handshake
/// lies after `now`.
pub open spec fn handshake_label(peers: Seq<PeerInfo>, now: nat) -> Option<Seq<char>> {
    let latest = seq_max(handshakes(peers));
    if latest == 0 || latest > now {
        None
    } else {
        Some(humanize_text(((now - latest) as nat) / 1_000_000_000) + " ago"@)
    }
}

/// Picks the most recent handshake across peers and tells its age in words
/// (`"1 minute ago"`); `None` when no peer has ever completed a handshake, or
/// when the clock is behind it.
pub fn latest_handshake_label(peers: &[PeerInfo], now: TimeSpan) -> (r: Option<String>)
    ensures
        r.deep_view() == handshake_label(peers@, now@),
{
    let mut latest = TimeSpan::zero();
    let mut i: usize = 0;
    while i < peers.len()
        invariant
            i <= peers@.len(),
            latest@ == seq_max(handshakes(peers@.take(i as int))),
        decreases peers@.len() - i,
    {
        let h = peers[i].latest_handshake;
        let ghost before = handshakes(peers@.take(i as int));
        assert(handshakes(peers@.take(i + 1)) == before.push(h@));
        assert(before.push(h@).drop_last() == before);
        if !h.is_zero() && latest.le(&h) {
            latest = h;
        }
        i = i + 1;
    }
    assert(peers@.take(peers@.len() as int) == peers@);
    if latest.is_zero() {
        return None;
    }
    match now.checked_sub(&latest) {
        None => None,
        Some(age) => {
            let mut s = humanize(age);
            s.append(" ago");
            Some(s)
        },
    }
}

/// What the state report reads of a WireGuard device.
pub struct DeviceInfo {
    pub ifname: String,
    pub peers: Vec<PeerInfo>,
}

/// The report the helper prints: whether the tunnel is up, the interface
/// name, and the age of the latest handshake when there is one.
pub struct State {
    pub state: &'static str,
    pub interface: String,
    pub latest_handshake: Option<String>,
}

/// The report for device `dev`: down when no device was found, otherwise up,
/// named as the device names itself, with the latest handshake at time `now`.
pub fn build_state(dev: String, device: Option<&DeviceInfo>, now: TimeSpan) -> (s: State)
    ensures
        match device {
            None => {
                &&& s.state@ == "down"@
                &&& s.interface@ == dev@
                &&& s.latest_handshake is None
            },
            Some(d) => {
                &&& s.state@ == "up"@
                &&& s.interface@ == d.ifname@
                &&& s.latest_handshake.deep_view() == handshake_label(d.peers@, now@)
            },
        },
{
    match device {
        Some(d) => State {
            state: "up",
            interface: d.ifname.clone(),
            latest_handshake: latest_handshake_label(d.peers.as_slice(), now),
        },
        None => State { state: "down", interface: dev, latest_handshake: None },
    }
}

/// The most recent handshake is at least as recent as every peer's, and is
/// one of them when there is any peer.
pub proof fn lemma_seq_max_bounds(s: Seq<nat>)
    ensures
        forall|i: int| 0 <= i < s.len() ==> s[i] <= seq_max(s),
        s.len() > 0 ==> s.contains(seq_max(s)),
    decreases s.len(),
{
    if s.len() > 0 {
        let init = s.drop_last();
        lemma_seq_max_bounds(init);
        assert forall|i: int| 0 <= i < s.len() implies s[i] <= seq_max(s) by {
            if i < s.len() - 1 {
                assert(s[i] == init[i]);
            }
        }
        if s.last() <= seq_max(init) && init.len() > 0 {
            let k = choose|k: int| 0 <= k < init.len() && init[k] == seq_max(init);
            assert(s[k] == seq_max(s));
        } else {
            assert(s[s.len() - 1] == seq_max(s));
        }
    }
}

/// The handshake label does not depend on the order of the peers, nor on how
/// often a handshake time occurs among them: peers with the same handshake
/// times give the same label.
pub proof fn lemma_label_ignores_peer_order(a: Seq<PeerInfo>, b: Seq<PeerInfo>, now: nat)
    requires
        forall|t: nat| handshakes(a).contains(t) <==> handshakes(b).contains(t),
    ensures
        handshake_label(a, now) == handshake_label(b, now),
{
    let ha = handshakes(a);
    let hb = handshakes(b);
    lemma_seq_max_bounds(ha);
    lemma_seq_max_bounds(hb);
    if ha.len() > 0 {
        let i = choose|i: int| 0 <= i < hb.len() && hb[i] == seq_max(ha);
        assert(seq_max(ha) <= seq_max(hb));
    } else if hb.len() > 0 {
        assert(ha.contains(hb[0]));
    }
    if hb.len() > 0 {
        let j = choose|j: int| 0 <= j < ha.len() && ha[j] == seq_max(hb);
        assert(seq_max(hb) <= seq_max(ha));
    }
    assert(seq_max(ha) == seq_max(hb));
}

/// A peer that never completed a handshake does not change the label.
pub proof fn lemma_label_ignores_idle_peer(peers: Seq<PeerInfo>, idle: PeerInfo, now: nat)
    requires
        idle.latest_handshake@ == 0,
    ensures
        handshake_label(peers.push(idle), now) == handshake_label(peers, now),
{
    let h = handshakes(peers);
    assert(handshakes(peers.push(idle)) == h.push(0));
    assert(h.push(0).drop_last() == h);
}

/// The units that `humanize` names add up to the whole span: days, then
/// hours below a day, minutes below an hour and seconds below a minute; and
/// the text always names at least one unit.
pub proof fn lemma_humanize_units(secs: nat)
    ensures
        day_count(secs) * 86_400 + hour_count(secs) * 3600 + minute_count(secs) * 60
            + second_count(secs) == secs,
        hour_count(secs) < 24,
        minute_count(secs) < 60,
        second_count(secs) < 60,
        humanize_parts(secs).len() >= 1,
{
    let r1 = secs % 86_400;
    let r2 = r1 % 3600;
    assert(secs == (secs / 86_400) * 86_400 + r1 && r1 < 86_400) by (nonlinear_arith)
        requires
            r1 == secs % 86_400,
    ;
    assert(r1 == (r1 / 3600) * 3600 + r2 && r2 < 3600 && r1 / 3600 < 24) by (nonlinear_arith)
        requires
            r2 == r1 % 3600,
            r1 < 86_400,
    ;
    assert(r2 == (r2 / 60) * 60 + r2 % 60 && r2 % 60 < 60 && r2 / 60 < 60) by (nonlinear_arith)
        requires
            r2 < 3600,
    ;
}

/// Every unit that is not zero is named, whatever the other units are; the
/// seconds are named also when every unit is zero; nothing else is named.
pub proof fn lemma_humanize_names_every_unit(secs: nat)
    ensures
        day_count(secs) > 0 ==> humanize_parts(secs).contains(plural_text(day_count(secs), "day"@)),
        hour_count(secs) > 0 ==> humanize_parts(secs).contains(plural_text(hour_count(secs), "hour"@)),
        minute_count(secs) > 0 ==> humanize_parts(secs).contains(
            plural_text(minute_count(secs), "minute"@),
        ),
        second_count(secs) > 0 ==> humanize_parts(secs).contains(
            plural_text(second_count(secs), "second"@),
        ),
        humanize_parts(secs).len() == (if day_count(secs) > 0 { 1int } else { 0 }) + (if hour_count(
            secs,
        ) > 0 {
            1int
        } else {
            0
        }) + (if minute_count(secs) > 0 {
            1int
        } else {
            0
        }) + (if second_count(secs) > 0 {
            1int
        } else {
            0
        }) + (if secs == 0 {
            1int
        } else {
            0
        }),
        secs == 0 ==> humanize_parts(secs) == seq![plural_text(0, "second"@)],
        humanize_text(secs) == join(humanize_parts(secs), ", "@),
{
    lemma_humanize_units(secs);
    let p = humanize_parts(secs);
    let n = p.len() as int;
    if second_count(secs) > 0 || (secs == 0) {
        assert(p[n - 1] == plural_text(second_count(secs), "second"@));
    }
    if minute_count(secs) > 0 {
        let k = (if day_count(secs) > 0 { 1int } else { 0 }) + (if hour_count(secs) > 0 { 1int } else { 0 });
        assert(p[k] == plural_text(minute_count(secs), "minute"@));
    }
    if hour_count(secs) > 0 {
        let k = if day_count(secs) > 0 { 1int } else { 0 };
        assert(p[k] == plural_text(hour_count(secs), "hour"@));
    }
    if day_count(secs) > 0 {
        assert(p[0] == plural_text(day_count(secs), "day"@));
    }
}

/// When some peer completed a handshake, the label tells the age of the most
/// recent one, whatever that age is; it is absent exactly when no peer ever
/// completed a handshake or the most recent one lies after `now`.
pub proof fn lemma_label_tells_latest_age(peers: Seq<PeerInfo>, now: nat, i: int)
    requires
        0 <= i < peers.len(),
        peers[i].latest_handshake@ > 0,
        forall|j: int| 0 <= j < peers.len() ==> #[trigger] peers[j].latest_handshake@ <= peers[i].latest_handshake@,
    ensures
        peers[i].latest_handshake@ <= now ==> handshake_label(peers, now) == Some(
            humanize_text(((now - peers[i].latest_handshake@) as nat) / 1_000_000_000) + " ago"@,
        ),
        peers[i].latest_handshake@ > now ==> handshake_label(peers, now) is None,
{
    let h = handshakes(peers);
    lemma_seq_max_bounds(h);
    assert(h[i] == peers[i].latest_handshake@);
    let k = choose|k: int| 0 <= k < h.len() && h[k] == seq_max(h);
    assert(h[k] == peers[k].latest_handshake@);
    assert(seq_max(h) == peers[i].latest_handshake@);
}

/// Without any peer that completed a handshake there is no label.
pub proof fn lemma_no_handshake_no_label(peers: Seq<PeerInfo>, now: nat)
    requires
        forall|j: int| 0 <= j < peers.len() ==> #[trigger] peers[j].latest_handshake@ == 0,
    ensures
        handshake_label(peers, now) is None,
{
    let h = handshakes(peers);
    lemma_seq_max_bounds(h);
    if h.len() > 0 {
        let k = choose|k: int| 0 <= k < h.len() && h[k] == seq_max(h);
        assert(h[k] == peers[k].latest_handshake@);
    }
}

/// The count in words: the number written in decimal, a space, the unit, and
/// an `s` exactly when the count is not one.
pub proof fn lemma_plural_text_shape(n: nat, unit: Seq<char>)
    ensures
        plural_text(n, unit).len() == decimal(n).len() + 1 + unit.len() + if n == 1 {
            0int
        } else {
            1
        },
        plural_text(n, unit).take(decimal(n).len() as int) == decimal(n),
        plural_text(n, unit)[decimal(n).len() as int] == ' ',
        plural_text(n, unit).subrange(decimal(n).len() + 1int, decimal(n).len() + 1int + unit.len()) == unit,
        n != 1 ==> plural_text(n, unit).last() == 's',
{
    let t = plural_text(n, unit);
    let k = decimal(n).len() as int;
    assert(t.take(k) == decimal(n));
    assert(t.subrange(k + 1, k + 1 + unit.len()) == unit);
}

} // verus!
