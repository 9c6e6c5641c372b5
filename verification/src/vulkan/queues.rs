//! Queue families: what is asked of them, and which ones are taken.

use vstd::prelude::*;

use crate::text;
use crate::vulkan::video::VideoCodec;

verus! {

/// Capabilities a queue family must satisfy to be selected.
///
/// Encoded as flags so callers can request a *single* queue family that
/// covers multiple workloads (e.g. compute + transfer on the same family),
/// avoiding cross-family synchronisation when the hardware allows it.
#[derive(Debug, Clone, Copy, PartialEq, Eq, Structural, Hash)]
pub struct QueueCapabilities {
    bits: u32,
}

/// `ash::vk::QueueFlags::COMPUTE` is the flag of bit 1, and `as_raw` hands out
/// the bits of a flag set.
#[verifier::external_body]
fn vk_compute() -> (r: u32)
    ensures
        r == 2,
{
    ash::vk::QueueFlags::COMPUTE.as_raw()
}

/// `ash::vk::QueueFlags::TRANSFER` is the flag of bit 2, and `as_raw` hands out
/// the bits of a flag set.
#[verifier::external_body]
fn vk_transfer() -> (r: u32)
    ensures
        r == 4,
{
    ash::vk::QueueFlags::TRANSFER.as_raw()
}

/// `ash::vk::QueueFlags::VIDEO_ENCODE_KHR` is the flag of bit 6, and `as_raw`
/// hands out the bits of a flag set.
#[verifier::external_body]
fn vk_video_encode() -> (r: u32)
    ensures
        r == 64,
{
    ash::vk::QueueFlags::VIDEO_ENCODE_KHR.as_raw()
}

impl QueueCapabilities {
    /// The flags as bits: 1 for compute, 2 for transfer, 4 for video encode.
    pub closed spec fn spec_bits(self) -> u32 {
        self.bits
    }

    #[verifier::type_invariant]
    spec fn known(self) -> bool {
        self.bits < 8
    }

    /// Compute shaders.
    #[must_use]
    pub fn compute() -> (r: QueueCapabilities)
        ensures
            r.spec_bits() == 1,
    {
        QueueCapabilities { bits: 1 }
    }

    /// Copies.
    #[must_use]
    pub fn transfer() -> (r: QueueCapabilities)
        ensures
            r.spec_bits() == 2,
    {
        QueueCapabilities { bits: 2 }
    }

    /// Video encoding.
    #[must_use]
    pub fn video_encode() -> (r: QueueCapabilities)
        ensures
            r.spec_bits() == 4,
    {
        QueueCapabilities { bits: 4 }
    }

    /// The capabilities of both.
    #[must_use]
    pub fn union(self, other: QueueCapabilities) -> (r: QueueCapabilities)
        ensures
            r.spec_bits() == self.spec_bits() | other.spec_bits(),
    {
        proof {
            use_type_invariant(&self);
            use_type_invariant(&other);
        }
        let a: u32 = self.bits;
        let b: u32 = other.bits;
        assert(a < 8 && b < 8 ==> a | b < 8) by (bit_vector);
        QueueCapabilities { bits: a | b }
    }

    /// Whether all capabilities of `other` are among these.
    #[must_use]
    pub fn contains(self, other: QueueCapabilities) -> (r: bool)
        ensures
            r == covers(self.spec_bits(), other.spec_bits()),
    {
        self.bits & other.bits == other.bits
    }

    /// The bits of the Vulkan queue flags that stand for these capabilities.
    #[must_use]
    pub fn to_vk_queue_flags(self) -> (r: u32)
        ensures
            r == vk_flags(self.spec_bits()),
    {
        let mut flags: u32 = 0;
        if self.contains(QueueCapabilities::compute()) {
            flags = flags | vk_compute();
        }
        if self.contains(QueueCapabilities::transfer()) {
            flags = flags | vk_transfer();
        }
        if self.contains(QueueCapabilities::video_encode()) {
            flags = flags | vk_video_encode();
        }
        assert(forall|x: u32| #[trigger] (x | 0u32) == x) by (bit_vector);
        assert(forall|x: u32| #[trigger] (0u32 | x) == x) by (bit_vector);
        flags
    }

    /// Names of the capabilities, for a message.
    #[must_use]
    pub fn text(self) -> (r: String)
        ensures
            r@ == capabilities_text(self.spec_bits()),
    {
        let mut names: Vec<String> = Vec::new();
        if self.contains(QueueCapabilities::compute()) {
            names.push(String::from_str("COMPUTE"));
        }
        if self.contains(QueueCapabilities::transfer()) {
            names.push(String::from_str("TRANSFER"));
        }
        if self.contains(QueueCapabilities::video_encode()) {
            names.push(String::from_str("VIDEO_ENCODE"));
        }
        assert(text::texts(names@) =~= capability_names(self.spec_bits()));
        let mut r = String::from_str("QueueCapabilities(");
        if names.len() == 0 {
            r.append("0x0");
        } else {
            text::push_joined(&mut r, &names, " | ");
        }
        r.append(")");
        r
    }
}

/// Whether all bits of `wanted` are among `bits`.
pub open spec fn covers(bits: u32, wanted: u32) -> bool {
    bits & wanted == wanted
}

/// The Vulkan queue flags that stand for capabilities.
pub open spec fn vk_flags(bits: u32) -> u32 {
    (if covers(bits, 1) {
        2u32
    } else {
        0
    }) | (if covers(bits, 2) {
        4u32
    } else {
        0
    }) | (if covers(bits, 4) {
        64u32
    } else {
        0
    })
}

/// The names of capabilities, in the order of their bits.
pub open spec fn capability_names(bits: u32) -> Seq<Seq<char>> {
    (if covers(bits, 1) {
        seq!["COMPUTE"@]
    } else {
        Seq::empty()
    }) + (if covers(bits, 2) {
        seq!["TRANSFER"@]
    } else {
        Seq::empty()
    }) + (if covers(bits, 4) {
        seq!["VIDEO_ENCODE"@]
    } else {
        Seq::empty()
    })
}

/// Capabilities as text.
pub open spec fn capabilities_text(bits: u32) -> Seq<char> {
    "QueueCapabilities("@ + (if capability_names(bits).len() == 0 {
        "0x0"@
    } else {
        text::joined(capability_names(bits), " | "@)
    }) + ")"@
}

/// Description of queues the caller wants the context to expose.
#[derive(Debug)]
pub struct QueueRequest {
    /// Each entry is a queue family the context must locate. The
    /// solver satisfies entries with as few distinct families as
    /// possible (a single family covering multiple entries is preferred).
    pub queues: Vec<QueueCapabilities>,
    /// Video codec extensions to enable on the device. Only meaningful when
    /// at least one queue request includes video encode.
    pub video_codecs: Vec<VideoCodec>,
}

/// The capabilities of the entries of a request.
pub open spec fn all_bits(queues: Seq<QueueCapabilities>) -> Seq<u32> {
    queues.map_values(|c: QueueCapabilities| c.spec_bits())
}

impl QueueRequest {
    /// One queue for compute and transfer.
    #[must_use]
    pub fn compute_only() -> (r: QueueRequest)
        ensures
            all_bits(r.queues@) == seq![3u32],
            r.video_codecs@ == Seq::<VideoCodec>::empty(),
    {
        assert(1u32 | 2u32 == 3u32) by (bit_vector);
        let mut queues: Vec<QueueCapabilities> = Vec::new();
        queues.push(QueueCapabilities::compute().union(QueueCapabilities::transfer()));
        let r = QueueRequest { queues, video_codecs: Vec::new() };
        assert(all_bits(r.queues@) =~= seq![3u32]);
        r
    }

    /// One queue for compute and transfer, and one to encode video with `codec`.
    #[must_use]
    pub fn compute_and_encode(codec: VideoCodec) -> (r: QueueRequest)
        ensures
            all_bits(r.queues@) == seq![3u32, 4u32],
            r.video_codecs@ == seq![codec],
    {
        assert(1u32 | 2u32 == 3u32) by (bit_vector);
        let mut queues: Vec<QueueCapabilities> = Vec::new();
        queues.push(QueueCapabilities::compute().union(QueueCapabilities::transfer()));
        queues.push(QueueCapabilities::video_encode());
        let mut video_codecs: Vec<VideoCodec> = Vec::new();
        video_codecs.push(codec);
        let r = QueueRequest { queues, video_codecs };
        assert(all_bits(r.queues@) =~= seq![3u32, 4u32]);
        r
    }
}

/// Whether the first entries of a request can be served by the families `a`:
/// entry `i` by family `a[i]`.
pub open spec fn serves(wanted: Seq<u32>, families: Seq<u32>, a: Seq<u32>) -> bool {
    &&& a.len() <= wanted.len()
    &&& forall|i: int|
        0 <= i < a.len() ==> (#[trigger] a[i]) < families.len() && covers(
            families[a[i] as int],
            vk_flags(wanted[i]),
        )
}

/// Whether all entries of a request are served.
pub open spec fn serves_all(wanted: Seq<u32>, families: Seq<u32>, a: Seq<u32>) -> bool {
    a.len() == wanted.len() && serves(wanted, families, a)
}

/// Number of different families.
pub open spec fn distinct(a: Seq<u32>) -> nat {
    a.to_set().len()
}

/// Whether `b` comes before `a` in lexicographic order.
pub open spec fn lex_less(b: Seq<u32>, a: Seq<u32>) -> bool {
    exists|i: int|
        0 <= i < a.len() && i < b.len() && (forall|j: int| 0 <= j < i ==> b[j] == a[j])
            && #[trigger] b[i] < #[trigger] a[i]
}

/// Whether `b` is preferred to `a`: it needs fewer families or, with as many,
/// takes families of lower index for the earlier entries.
pub open spec fn better(b: Seq<u32>, a: Seq<u32>) -> bool {
    distinct(b) < distinct(a) || (distinct(b) == distinct(a) && lex_less(b, a))
}

/// Whether `a` is the best way to serve all entries.
pub open spec fn is_best(wanted: Seq<u32>, families: Seq<u32>, a: Seq<u32>) -> bool {
    &&& serves_all(wanted, families, a)
    &&& forall|b: Seq<u32>| #[trigger] serves_all(wanted, families, b) ==> !better(b, a)
}

/// Whether some family serves an entry.
pub open spec fn servable(wanted: u32, families: Seq<u32>) -> bool {
    exists|k: int| 0 <= k < families.len() && covers(#[trigger] families[k], vk_flags(wanted))
}

/// Whether `b` starts with `prefix` and goes on, if at all, with a family of
/// index `k` or higher.
spec fn extends(b: Seq<u32>, prefix: Seq<u32>, k: int) -> bool {
    &&& prefix.len() <= b.len()
    &&& forall|i: int| 0 <= i < prefix.len() ==> #[trigger] b[i] == prefix[i]
    &&& b.len() > prefix.len() ==> b[prefix.len() as int] >= k
}

/// The one of `x` and `y` that needs fewer families; `x` where both need as many.
spec fn fewer(x: Option<Seq<u32>>, y: Option<Seq<u32>>) -> Option<Seq<u32>> {
    match (x, y) {
        (Some(a), Some(b)) => if distinct(b) < distinct(a) {
            y
        } else {
            x
        },
        (Some(_), None) => x,
        _ => y,
    }
}

/// The best way to serve all entries that starts with `prefix` and goes on with
/// a family of index `k` or higher.
spec fn best_from(wanted: Seq<u32>, families: Seq<u32>, prefix: Seq<u32>, k: int) -> Option<
    Seq<u32>,
>
    decreases wanted.len() - prefix.len(), families.len() - k,
{
    if prefix.len() >= wanted.len() {
        Some(prefix)
    } else if k >= families.len() || k < 0 {
        None
    } else {
        fewer(
            if covers(families[k], vk_flags(wanted[prefix.len() as int])) {
                best_from(wanted, families, prefix.push(k as u32), 0)
            } else {
                None
            },
            best_from(wanted, families, prefix, k + 1),
        )
    }
}

spec fn best_among(
    wanted: Seq<u32>,
    families: Seq<u32>,
    prefix: Seq<u32>,
    k: int,
    found: Option<Seq<u32>>,
) -> bool {
    match found {
        Some(a) => {
            &&& serves_all(wanted, families, a)
            &&& extends(a, prefix, k)
            &&& forall|b: Seq<u32>| #[trigger]
                serves_all(wanted, families, b) && extends(b, prefix, k) ==> !better(b, a)
        },
        None => forall|b: Seq<u32>| #[trigger]
            serves_all(wanted, families, b) ==> !extends(b, prefix, k),
    }
}

proof fn lemma_best_from(wanted: Seq<u32>, families: Seq<u32>, prefix: Seq<u32>, k: int)
    requires
        serves(wanted, families, prefix),
        0 <= k <= families.len() <= u32::MAX,
    ensures
        best_among(wanted, families, prefix, k, best_from(wanted, families, prefix, k)),
    decreases wanted.len() - prefix.len(), families.len() - k,
{
    let n = prefix.len() as int;
    let found = best_from(wanted, families, prefix, k);
    if n >= wanted.len() {
        assert forall|b: Seq<u32>| #[trigger]
            serves_all(wanted, families, b) && extends(b, prefix, k) implies !better(b, prefix) by {
            assert(b =~= prefix);
        }
    } else if k >= families.len() {
        assert forall|b: Seq<u32>| #[trigger] serves_all(wanted, families, b) implies !extends(
            b,
            prefix,
            k,
        ) by {
            assert(b[n] < families.len());
        }
    } else {
        let next = prefix.push(k as u32);
        let fits = covers(families[k], vk_flags(wanted[n]));
        let x = if fits {
            best_from(wanted, families, next, 0)
        } else {
            None
        };
        let y = best_from(wanted, families, prefix, k + 1);
        lemma_best_from(wanted, families, prefix, k + 1);
        if fits {
            assert(serves(wanted, families, next));
            lemma_best_from(wanted, families, next, 0);
        }
        // Every way from here goes on with family `k` or with a later one.
        assert forall|b: Seq<u32>| #[trigger]
            serves_all(wanted, families, b) && extends(b, prefix, k) implies extends(
            b,
            prefix,
            k + 1,
        ) || (fits && extends(b, next, 0)) by {
            if b[n] == k {
                assert(covers(families[b[n] as int], vk_flags(wanted[n])));
                assert forall|i: int| 0 <= i < next.len() implies #[trigger] b[i] == next[i] by {
                    if i < n {
                        assert(b[i] == prefix[i]);
                    }
                }
            }
        }
        if x is Some {
            let a = x->0;
            assert(a[n] == next[n]);
            assert forall|i: int| 0 <= i < n implies #[trigger] a[i] == prefix[i] by {
                assert(a[i] == next[i]);
            }
        }
        match found {
            Some(a) => {
                assert(extends(a, prefix, k));
                assert forall|b: Seq<u32>| #[trigger]
                    serves_all(wanted, families, b) && extends(b, prefix, k) implies !better(
                    b,
                    a,
                ) by {
                    if x == Some(a) && extends(b, prefix, k + 1) {
                        assert(distinct(b) >= distinct(a));
                        if lex_less(b, a) {
                            let i = choose|i: int|
                                0 <= i < a.len() && i < b.len() && (forall|j: int|
                                    0 <= j < i ==> b[j] == a[j]) && #[trigger] b[i]
                                    < #[trigger] a[i];
                            assert(b[n] > a[n]);
                            if i < n {
                                assert(b[i] == prefix[i] && a[i] == prefix[i]);
                            }
                        }
                    }
                }
            },
            None => {},
        }
    }
}

/// The different numbers of `a`, in ascending order.
pub fn unique_families(a: &Vec<u32>) -> (r: Vec<u32>)
    ensures
        forall|i: int, j: int| 0 <= i < j < r@.len() ==> r@[i] < r@[j],
        r@.to_set() == a@.to_set(),
        r@.len() == distinct(a@),
{
    let mut r: Vec<u32> = Vec::new();
    let mut n: usize = 0;
    while n < a.len()
        invariant
            n <= a.len(),
            forall|i: int, j: int| 0 <= i < j < r@.len() ==> r@[i] < r@[j],
            forall|x: u32| r@.contains(x) <==> a@.subrange(0, n as int).contains(x),
        decreases a.len() - n,
    {
        let x: u32 = a[n];
        let ghost before = r@;
        let ghost seen = a@.subrange(0, n as int);
        let ghost after = a@.subrange(0, n + 1);
        assert(after =~= seen.push(x));
        assert(forall|y: u32| #[trigger] before.contains(y) <==> seen.contains(y));
        let mut k: usize = 0;
        while k < r.len() && r[k] < x
            invariant
                k <= r.len(),
                r@ == before,
                forall|i: int, j: int| 0 <= i < j < r@.len() ==> r@[i] < r@[j],
                forall|i: int| 0 <= i < k ==> r@[i] < x,
            decreases r.len() - k,
        {
            k = k + 1;
        }
        if k == r.len() || r[k] != x {
            r.insert(k, x);
            assert forall|y: u32| r@.contains(y) <==> after.contains(y) by {
                if r@.contains(y) {
                    let i = choose|i: int| 0 <= i < r@.len() && r@[i] == y;
                    if i == k {
                        assert(after[n as int] == y);
                    } else {
                        let i0 = if i < k {
                            i
                        } else {
                            i - 1
                        };
                        assert(0 <= i0 < before.len());
                        assert(before[i0] == y);
                        assert(before.contains(y));
                        assert(seen.contains(y));
                        let m = choose|m: int| 0 <= m < seen.len() && seen[m] == y;
                        assert(after[m] == y);
                    }
                }
                if after.contains(y) {
                    let m = choose|m: int| 0 <= m < after.len() && after[m] == y;
                    if m == n {
                        assert(r@[k as int] == y);
                    } else {
                        assert(seen[m] == y);
                        assert(seen.contains(y) && before.contains(y));
                        let i0 = choose|i: int| 0 <= i < before.len() && before[i] == y;
                        if i0 < k {
                            assert(r@[i0] == y);
                        } else {
                            assert(r@[i0 + 1] == y);
                        }
                    }
                }
            }
        } else {
            assert forall|y: u32| r@.contains(y) <==> after.contains(y) by {
                if r@.contains(y) {
                    let m = choose|m: int| 0 <= m < seen.len() && seen[m] == y;
                    assert(after[m] == y);
                }
                if after.contains(y) {
                    let m = choose|m: int| 0 <= m < after.len() && after[m] == y;
                    if m == n {
                        assert(r@[k as int] == y);
                    } else {
                        assert(seen[m] == y);
                    }
                }
            }
        }
        n = n + 1;
    }
    proof {
        assert(a@.subrange(0, n as int) =~= a@);
        assert(r@.to_set() =~= a@.to_set());
        r@.unique_seq_to_set();
    }
    r
}

fn search(wanted: &Vec<QueueCapabilities>, families: &Vec<u32>, prefix: &mut Vec<u32>) -> (r: Option<
    Vec<u32>,
>)
    requires
        serves(all_bits(wanted@), families@, old(prefix)@),
        families@.len() <= u32::MAX,
    ensures
        final(prefix)@ == old(prefix)@,
        match r {
            Some(a) => best_from(all_bits(wanted@), families@, old(prefix)@, 0) == Some(a@),
            None => best_from(all_bits(wanted@), families@, old(prefix)@, 0) is None,
        },
    decreases wanted@.len() - old(prefix)@.len(),
{
    let ghost bits = all_bits(wanted@);
    let ghost start = prefix@;
    if prefix.len() >= wanted.len() {
        let mut a: Vec<u32> = Vec::new();
        let mut i: usize = 0;
        while i < prefix.len()
            invariant
                i <= prefix.len(),
                a@ == prefix@.subrange(0, i as int),
            decreases prefix.len() - i,
        {
            a.push(prefix[i]);
            assert(a@ =~= prefix@.subrange(0, i + 1));
            i = i + 1;
        }
        assert(a@ =~= prefix@);
        return Some(a);
    }
    let at: usize = prefix.len();
    let flags: u32 = wanted[at].to_vk_queue_flags();
    let mut best: Option<Vec<u32>> = None;
    let mut k: usize = families.len();
    while k > 0
        invariant
            k <= families.len() <= u32::MAX,
            prefix@ == start,
            start == old(prefix)@,
            at == start.len(),
            at < wanted@.len(),
            bits == all_bits(wanted@),
            flags == vk_flags(bits[at as int]),
            serves(bits, families@, start),
            match best {
                Some(a) => best_from(bits, families@, start, k as int) == Some(a@),
                None => best_from(bits, families@, start, k as int) is None,
            },
        decreases k,
    {
        k = k - 1;
        if families[k] & flags == flags {
            prefix.push(k as u32);
            let found = search(wanted, families, prefix);
            prefix.pop();
            assert(prefix@ =~= start);
            if let Some(a) = found {
                let take: bool = match &best {
                    Some(b) => unique_families(b).len() >= unique_families(&a).len(),
                    None => true,
                };
                if take {
                    best = Some(a);
                }
            }
        }
    }
    best
}

/// Resolve each requested capability set to a queue family index: the way that
/// takes as few distinct families as possible, and among those the one with the
/// lowest indices for the earlier entries. `families` holds the Vulkan queue
/// flags of the families of the device.
///
/// # Errors
///
/// The index of the first entry that no family serves.
pub fn solve(wanted: &Vec<QueueCapabilities>, families: &Vec<u32>) -> (r: Result<Vec<u32>, usize>)
    requires
        families@.len() <= u32::MAX,
    ensures
        match r {
            Ok(a) => is_best(all_bits(wanted@), families@, a@),
            Err(i) => i < wanted@.len() && !servable(all_bits(wanted@)[i as int], families@)
                && forall|j: int|
                0 <= j < i ==> servable(#[trigger] all_bits(wanted@)[j], families@),
        },
{
    let ghost bits = all_bits(wanted@);
    let ghost first: Seq<u32> = Seq::empty();
    let mut i: usize = 0;
    while i < wanted.len()
        invariant
            i <= wanted.len(),
            bits == all_bits(wanted@),
            families@.len() <= u32::MAX,
            serves(bits, families@, first),
            first.len() == i,
            forall|j: int| 0 <= j < i ==> servable(#[trigger] bits[j], families@),
        decreases wanted.len() - i,
    {
        let flags: u32 = wanted[i].to_vk_queue_flags();
        let mut k: usize = 0;
        while k < families.len() && families[k] & flags != flags
            invariant
                k <= families.len(),
                forall|j: int| 0 <= j < k ==> !covers(#[trigger] families@[j], flags),
            decreases families.len() - k,
        {
            k = k + 1;
        }
        if k == families.len() {
            return Err(i);
        }
        proof {
            first = first.push(k as u32);
            assert(servable(bits[i as int], families@));
        }
        i = i + 1;
    }
    let mut prefix: Vec<u32> = Vec::new();
    let found = search(wanted, families, &mut prefix);
    proof {
        lemma_best_from(bits, families@, Seq::empty(), 0);
        assert(prefix@ =~= Seq::<u32>::empty());
        assert(serves_all(bits, families@, first));
        assert(extends(first, Seq::empty(), 0));
        assert forall|b: Seq<u32>| extends(b, Seq::empty(), 0) by {}
    }
    Ok(found.unwrap())
}

/// Where one family serves every entry, one family is all that is taken, and it
/// is the one of lowest index that does.
pub proof fn law_one_family_serves_all(
    wanted: Seq<u32>,
    families: Seq<u32>,
    a: Seq<u32>,
    k: u32,
)
    requires
        wanted.len() > 0,
        is_best(wanted, families, a),
        k < families.len(),
        forall|i: int|
            0 <= i < wanted.len() ==> covers(families[k as int], vk_flags(#[trigger] wanted[i])),
    ensures
        distinct(a) == 1,
        forall|i: int| 0 <= i < a.len() ==> #[trigger] a[i] == a[0],
        a[0] <= k,
{
    let b = Seq::new(wanted.len(), |i: int| k);
    assert(serves_all(wanted, families, b));
    lemma_constant(b, k);
    assert(!better(b, a));
    assert(a.to_set().contains(a[0]));
    vstd::set_lib::lemma_set_empty_equivalency_len(a.to_set());
    assert(distinct(a) == 1);
    assert forall|i: int| 0 <= i < a.len() implies #[trigger] a[i] == a[0] by {
        assert(a.to_set().contains(a[i]));
        if a[i] != a[0] {
            let rest = a.to_set().remove(a[0]);
            assert(rest.contains(a[i]));
            vstd::set_lib::lemma_set_empty_equivalency_len(rest);
        }
    }
    if a[0] > k {
        assert(b[0] < a[0]);
        assert(lex_less(b, a));
    }
}

proof fn lemma_constant(b: Seq<u32>, k: u32)
    requires
        b.len() > 0,
        forall|i: int| 0 <= i < b.len() ==> #[trigger] b[i] == k,
    ensures
        distinct(b) == 1,
{
    assert(b.to_set() =~= Set::empty().insert(k)) by {
        assert(b[0] == k);
    }
}

/// Where taking the first family that serves each entry needs as few families as
/// possible, that is what is taken.
pub proof fn law_first_fit_is_kept_where_it_is_smallest(
    wanted: Seq<u32>,
    families: Seq<u32>,
    a: Seq<u32>,
    f: Seq<u32>,
)
    requires
        is_best(wanted, families, a),
        serves_all(wanted, families, f),
        forall|i: int, k: int|
            0 <= i < f.len() && 0 <= k < f[i] ==> !covers(
                #[trigger] families[k],
                vk_flags(#[trigger] wanted[i]),
            ),
        distinct(f) == distinct(a),
    ensures
        a == f,
{
    assert(!better(f, a));
    if a != f {
        let i = lemma_first_difference(a, f);
        assert(covers(families[a[i] as int], vk_flags(wanted[i])));
        assert(f[i] < a[i]);
        assert(lex_less(f, a));
    }
}

proof fn lemma_first_difference(a: Seq<u32>, b: Seq<u32>) -> (i: int)
    requires
        a.len() == b.len(),
        a != b,
    ensures
        0 <= i < a.len(),
        a[i] != b[i],
        forall|j: int| 0 <= j < i ==> a[j] == b[j],
    decreases a.len(),
{
    if a.len() == 0 {
        assert(a =~= b);
        0
    } else if a.drop_last() == b.drop_last() {
        let n = a.len() - 1;
        assert forall|j: int| 0 <= j < n implies a[j] == b[j] by {
            assert(a.drop_last()[j] == b.drop_last()[j]);
        }
        if a[n] == b[n] {
            assert(a =~= b);
        }
        n
    } else {
        let i = lemma_first_difference(a.drop_last(), b.drop_last());
        assert forall|j: int| 0 <= j < i implies a[j] == b[j] by {
            assert(a.drop_last()[j] == b.drop_last()[j]);
        }
        i
    }
}

/// A family serves an entry exactly where it has the Vulkan flag of each capability that
/// the entry asks for: bit 1 for compute, bit 2 for transfer, bit 6 for video encode.
pub proof fn law_family_has_each_capability(family: u32, wanted: u32)
    ensures
        covers(family, vk_flags(wanted)) <==> {
            &&& wanted & 1 != 0 ==> family & 2 != 0
            &&& wanted & 2 != 0 ==> family & 4 != 0
            &&& wanted & 4 != 0 ==> family & 64 != 0
        },
        covers(wanted, 1) <==> wanted & 1 != 0,
        covers(wanted, 2) <==> wanted & 2 != 0,
        covers(wanted, 4) <==> wanted & 4 != 0,
{
    let c: u32 = if covers(wanted, 1) {
        2
    } else {
        0
    };
    let t: u32 = if covers(wanted, 2) {
        4
    } else {
        0
    };
    let v: u32 = if covers(wanted, 4) {
        64
    } else {
        0
    };
    assert((wanted & 1 == 1 <==> wanted & 1 != 0) && (wanted & 2 == 2 <==> wanted & 2 != 0) && (
    wanted & 4 == 4 <==> wanted & 4 != 0)) by (bit_vector);
    assert((c == 0 || c == 2) && (t == 0 || t == 4) && (v == 0 || v == 64) ==> (family & (c | t
        | v) == c | t | v <==> (c == 2 ==> family & 2 != 0) && (t == 4 ==> family & 4 != 0) && (v
        == 64 ==> family & 64 != 0))) by (bit_vector);
}

/// The best way serves every entry with a family that has what it asks for, and no other
/// way that does so takes fewer families.
pub proof fn law_best_way_takes_fewest_families(
    wanted: Seq<u32>,
    families: Seq<u32>,
    a: Seq<u32>,
    b: Seq<u32>,
    i: int,
)
    requires
        is_best(wanted, families, a),
        b.len() == wanted.len(),
        forall|j: int|
            0 <= j < b.len() ==> (#[trigger] b[j]) < families.len() && {
                &&& wanted[j] & 1 != 0 ==> families[b[j] as int] & 2 != 0
                &&& wanted[j] & 2 != 0 ==> families[b[j] as int] & 4 != 0
                &&& wanted[j] & 4 != 0 ==> families[b[j] as int] & 64 != 0
            },
    ensures
        a.len() == wanted.len(),
        a.to_set().len() <= b.to_set().len(),
        0 <= i < a.len() ==> {
            &&& a[i] < families.len()
            &&& wanted[i] & 1 != 0 ==> families[a[i] as int] & 2 != 0
            &&& wanted[i] & 2 != 0 ==> families[a[i] as int] & 4 != 0
            &&& wanted[i] & 4 != 0 ==> families[a[i] as int] & 64 != 0
        },
{
    assert forall|j: int| 0 <= j < b.len() implies (#[trigger] b[j]) < families.len() && covers(
        families[b[j] as int],
        vk_flags(wanted[j]),
    ) by {
        law_family_has_each_capability(families[b[j] as int], wanted[j]);
    }
    assert(serves_all(wanted, families, b));
    assert(!better(b, a));
    if 0 <= i < a.len() {
        law_family_has_each_capability(families[a[i] as int], wanted[i]);
    }
}

/// Whether a family has each capability that an entry asks for.
pub open spec fn has_all(family: u32, wanted: u32) -> bool {
    &&& wanted & 1 != 0 ==> family & 2 != 0
    &&& wanted & 2 != 0 ==> family & 4 != 0
    &&& wanted & 4 != 0 ==> family & 64 != 0
}

/// Some family serves an entry exactly where one of the device has each capability that
/// the entry asks for.
pub proof fn law_entry_is_servable_by_a_family(wanted: u32, families: Seq<u32>)
    ensures
        servable(wanted, families) <==> exists|k: int|
            0 <= k < families.len() && has_all(#[trigger] families[k], wanted),
{
    assert forall|k: int| 0 <= k < families.len() implies covers(
        #[trigger] families[k],
        vk_flags(wanted),
    ) == has_all(families[k], wanted) by {
        law_family_has_each_capability(families[k], wanted);
    }
}

} // verus!
