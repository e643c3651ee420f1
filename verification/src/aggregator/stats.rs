//! Counters, and the buckets under which they are kept.

use crate::double::Usd;
use crate::table::Key;
use crate::text::chars_of;
use vstd::prelude::*;

verus! {

/// Cumulative counters. What an agent does not report stays zero.
#[derive(Clone, Copy, Debug, PartialEq, Eq, Structural)]
pub struct ModelStats {
    pub request_count: u64,
    pub input_tokens: u64,
    pub output_tokens: u64,
    pub cache_read_tokens: u64,
    pub cache_creation_tokens: u64,
    pub reasoning_output_tokens: u64,
    pub cost_usd: Usd,
    pub duration_ms: u64,
}

impl View for ModelStats {
    type V = ModelStats;

    open spec fn view(&self) -> ModelStats {
        *self
    }
}

/// The sum of two counters, or the largest counter where the sum is beyond it.
pub open spec fn capped_sum(a: u64, b: u64) -> u64 {
    if a + b <= u64::MAX {
        (a + b) as u64
    } else {
        u64::MAX
    }
}

/// What is left of a counter, or zero where more is taken than there is.
pub open spec fn floored_difference(a: u64, b: u64) -> u64 {
    if a >= b {
        (a - b) as u64
    } else {
        0
    }
}

/// The sum of two amounts, capped in the same way.
pub open spec fn capped_usd_sum(a: Usd, b: Usd) -> Usd {
    crate::double::usd_capped((a.units + b.units) as nat)
}

/// What is left of an amount.
pub open spec fn floored_usd_difference(a: Usd, b: Usd) -> Usd {
    Usd {
        units: if a.units >= b.units {
            (a.units - b.units) as u128
        } else {
            0
        },
    }
}

/// Counters that are all zero.
pub open spec fn no_stats() -> ModelStats {
    ModelStats {
        request_count: 0,
        input_tokens: 0,
        output_tokens: 0,
        cache_read_tokens: 0,
        cache_creation_tokens: 0,
        reasoning_output_tokens: 0,
        cost_usd: Usd { units: 0 },
        duration_ms: 0,
    }
}

impl ModelStats {
    /// The counters after a sample was added.
    pub open spec fn plus(self, s: ModelStats) -> ModelStats {
        ModelStats {
            request_count: capped_sum(self.request_count, s.request_count),
            input_tokens: capped_sum(self.input_tokens, s.input_tokens),
            output_tokens: capped_sum(self.output_tokens, s.output_tokens),
            cache_read_tokens: capped_sum(self.cache_read_tokens, s.cache_read_tokens),
            cache_creation_tokens: capped_sum(self.cache_creation_tokens, s.cache_creation_tokens),
            reasoning_output_tokens: capped_sum(
                self.reasoning_output_tokens,
                s.reasoning_output_tokens,
            ),
            cost_usd: capped_usd_sum(self.cost_usd, s.cost_usd),
            duration_ms: capped_sum(self.duration_ms, s.duration_ms),
        }
    }

    /// The counters after a sample was taken away.
    pub open spec fn minus(self, s: ModelStats) -> ModelStats {
        ModelStats {
            request_count: floored_difference(self.request_count, s.request_count),
            input_tokens: floored_difference(self.input_tokens, s.input_tokens),
            output_tokens: floored_difference(self.output_tokens, s.output_tokens),
            cache_read_tokens: floored_difference(self.cache_read_tokens, s.cache_read_tokens),
            cache_creation_tokens: floored_difference(
                self.cache_creation_tokens,
                s.cache_creation_tokens,
            ),
            reasoning_output_tokens: floored_difference(
                self.reasoning_output_tokens,
                s.reasoning_output_tokens,
            ),
            cost_usd: floored_usd_difference(self.cost_usd, s.cost_usd),
            duration_ms: floored_difference(self.duration_ms, s.duration_ms),
        }
    }

    /// Whether no counter exceeds that of `o`.
    pub open spec fn at_most(self, o: ModelStats) -> bool {
        &&& self.request_count <= o.request_count
        &&& self.input_tokens <= o.input_tokens
        &&& self.output_tokens <= o.output_tokens
        &&& self.cache_read_tokens <= o.cache_read_tokens
        &&& self.cache_creation_tokens <= o.cache_creation_tokens
        &&& self.reasoning_output_tokens <= o.reasoning_output_tokens
        &&& self.cost_usd.units <= o.cost_usd.units
        &&& self.duration_ms <= o.duration_ms
    }

    /// Whether adding a sample brings no counter beyond its limit.
    pub open spec fn has_room_for(self, s: ModelStats) -> bool {
        &&& self.request_count + s.request_count <= u64::MAX
        &&& self.input_tokens + s.input_tokens <= u64::MAX
        &&& self.output_tokens + s.output_tokens <= u64::MAX
        &&& self.cache_read_tokens + s.cache_read_tokens <= u64::MAX
        &&& self.cache_creation_tokens + s.cache_creation_tokens <= u64::MAX
        &&& self.reasoning_output_tokens + s.reasoning_output_tokens <= u64::MAX
        &&& self.cost_usd.units + s.cost_usd.units <= u128::MAX
        &&& self.duration_ms + s.duration_ms <= u64::MAX
    }

    /// Whether a token count or the cost is set.
    pub open spec fn spec_has_usage(self) -> bool {
        self.input_tokens != 0 || self.output_tokens != 0 || self.cache_read_tokens != 0
            || self.cache_creation_tokens != 0 || self.reasoning_output_tokens != 0
            || self.cost_usd.units != 0
    }

    /// Adds a sample.
    pub fn add(&mut self, sample: &ModelStats)
        ensures
            *final(self) == old(self).plus(*sample),
    {
        self.request_count = self.request_count.saturating_add(sample.request_count);
        self.input_tokens = self.input_tokens.saturating_add(sample.input_tokens);
        self.output_tokens = self.output_tokens.saturating_add(sample.output_tokens);
        self.cache_read_tokens = self.cache_read_tokens.saturating_add(sample.cache_read_tokens);
        self.cache_creation_tokens = self.cache_creation_tokens.saturating_add(
            sample.cache_creation_tokens,
        );
        self.reasoning_output_tokens = self.reasoning_output_tokens.saturating_add(
            sample.reasoning_output_tokens,
        );
        self.cost_usd = Usd { units: self.cost_usd.units.saturating_add(sample.cost_usd.units) };
        self.duration_ms = self.duration_ms.saturating_add(sample.duration_ms);
    }

    /// Takes a sample away.
    pub fn subtract(&mut self, sample: &ModelStats)
        ensures
            *final(self) == old(self).minus(*sample),
    {
        self.request_count = self.request_count.saturating_sub(sample.request_count);
        self.input_tokens = self.input_tokens.saturating_sub(sample.input_tokens);
        self.output_tokens = self.output_tokens.saturating_sub(sample.output_tokens);
        self.cache_read_tokens = self.cache_read_tokens.saturating_sub(sample.cache_read_tokens);
        self.cache_creation_tokens = self.cache_creation_tokens.saturating_sub(
            sample.cache_creation_tokens,
        );
        self.reasoning_output_tokens = self.reasoning_output_tokens.saturating_sub(
            sample.reasoning_output_tokens,
        );
        self.cost_usd = Usd { units: self.cost_usd.units.saturating_sub(sample.cost_usd.units) };
        self.duration_ms = self.duration_ms.saturating_sub(sample.duration_ms);
    }

    /// Whether a token count or the cost is set.
    pub fn has_usage(&self) -> (r: bool)
        ensures
            r == self.spec_has_usage(),
    {
        self.input_tokens != 0 || self.output_tokens != 0 || self.cache_read_tokens != 0
            || self.cache_creation_tokens != 0 || self.reasoning_output_tokens != 0
            || self.cost_usd.units != 0
    }

    /// Whether any counter is set.
    pub fn has_any_value(&self) -> (r: bool)
        ensures
            r == (*self != no_stats()),
    {
        self.has_usage() || self.request_count != 0 || self.duration_ms != 0
    }

    /// The counters less those of `other`.
    pub fn saturating_sub_stats(&self, other: &ModelStats) -> (r: ModelStats)
        ensures
            r == self.minus(*other),
    {
        let mut out = *self;
        out.subtract(other);
        out
    }
}

impl Default for ModelStats {
    fn default() -> (r: ModelStats)
        ensures
            r == no_stats(),
    {
        ModelStats {
            request_count: 0,
            input_tokens: 0,
            output_tokens: 0,
            cache_read_tokens: 0,
            cache_creation_tokens: 0,
            reasoning_output_tokens: 0,
            cost_usd: Usd { units: 0 },
            duration_ms: 0,
        }
    }
}

/// Counters never wrap and never fall: adding a sample leaves each at least as
/// large as it was, and at least as large as the sample's.
pub proof fn law_adding_never_lowers(a: ModelStats, s: ModelStats)
    ensures
        a.at_most(a.plus(s)),
        s.at_most(a.plus(s)),
{
}

/// What was added can be taken away again, as long as no counter goes beyond its
/// limit.
pub proof fn law_subtracting_undoes_adding(a: ModelStats, s: ModelStats)
    requires
        a.has_room_for(s),
    ensures
        a.plus(s).minus(s) == a,
{
}

/// The provider, model and effort under which usage is counted.
#[verifier::ext_equal]
pub struct BucketId {
    pub provider: Seq<char>,
    pub model: Seq<char>,
    pub effort: Seq<char>,
}

/// The provider, model and effort under which usage is counted.
pub struct Bucket {
    pub provider: String,
    pub model: String,
    pub effort: String,
}

impl View for Bucket {
    type V = BucketId;

    open spec fn view(&self) -> BucketId {
        BucketId { provider: self.provider@, model: self.model@, effort: self.effort@ }
    }
}

/// The text, or `unknown` where it is empty.
pub open spec fn known(s: Seq<char>) -> Seq<char> {
    if s.len() == 0 {
        "unknown"@
    } else {
        s
    }
}

/// The bucket for the given parts; an empty part is unknown.
pub open spec fn bucket_of(provider: Seq<char>, model: Seq<char>, effort: Seq<char>) -> BucketId {
    BucketId { provider: known(provider), model: known(model), effort: known(effort) }
}

/// A character as it stands in a bucket key.
pub open spec fn encoded_char(c: char) -> Seq<char> {
    if c == '/' {
        seq!['%', '2', 'F']
    } else if c == '%' {
        seq!['%', '2', '5']
    } else {
        seq![c]
    }
}

/// A part as it stands in a bucket key.
pub open spec fn encoded(s: Seq<char>) -> Seq<char>
    decreases s.len(),
{
    if s.len() == 0 {
        Seq::empty()
    } else {
        encoded_char(s[0]) + encoded(s.skip(1))
    }
}

/// The key under which a bucket is published.
pub open spec fn bucket_key(b: BucketId) -> Seq<char> {
    encoded(b.provider) + seq!['/'] + encoded(b.model) + seq!['/'] + encoded(b.effort)
}

/// The text, or `unknown` where it is empty.
pub fn non_empty(s: &str) -> (r: String)
    ensures
        r@ == known(s@),
{
    let chars = chars_of(s);
    if chars.len() == 0 {
        "unknown".to_owned()
    } else {
        s.to_owned()
    }
}

fn push_encoded(out: &mut String, s: &str)
    ensures
        final(out)@ == old(out)@ + encoded(s@),
{
    let chars = chars_of(s);
    let ghost start = out@;
    assert(chars@.skip(0) =~= s@);
    for i in 0..chars.len()
        invariant
            out@ + encoded(chars@.skip(i as int)) == start + encoded(chars@),
    {
        let c = chars[i];
        let ghost before = out@;
        if c == '/' {
            out.push('%');
            out.push('2');
            out.push('F');
        } else if c == '%' {
            out.push('%');
            out.push('2');
            out.push('5');
        } else {
            out.push(c);
        }
        proof {
            assert(out@ =~= before + encoded_char(c));
            assert(chars@.skip(i as int).skip(1) =~= chars@.skip(i + 1));
            assert(out@ + encoded(chars@.skip(i + 1)) =~= before + encoded(chars@.skip(i as int)));
        }
    }
    assert(out@ + encoded(chars@.skip(chars@.len() as int)) =~= out@);
}

impl Bucket {
    /// The bucket for the given parts.
    pub fn from_parts(provider: &str, model: &str, effort: &str) -> (r: Bucket)
        ensures
            r@ == bucket_of(provider@, model@, effort@),
    {
        Bucket {
            provider: non_empty(provider),
            model: non_empty(model),
            effort: non_empty(effort),
        }
    }

    /// The key `provider/model/effort`, with `/` and `%` inside a part encoded.
    pub fn key(&self) -> (r: String)
        ensures
            r@ == bucket_key(self@),
    {
        let mut out = String::new();
        push_encoded(&mut out, self.provider.as_str());
        out.push('/');
        push_encoded(&mut out, self.model.as_str());
        out.push('/');
        push_encoded(&mut out, self.effort.as_str());
        assert(out@ =~= bucket_key(self@));
        out
    }
}

impl Key for Bucket {
    fn same(&self, other: &Self) -> (r: bool) {
        let r = self.provider == other.provider && self.model == other.model && self.effort
            == other.effort;
        assert(r == (self@ =~= other@));
        r
    }

    fn duplicate(&self) -> (r: Self) {
        Bucket {
            provider: self.provider.clone(),
            model: self.model.clone(),
            effort: self.effort.clone(),
        }
    }
}

proof fn lemma_encoded_has_no_slash(s: Seq<char>)
    ensures
        forall|i: int| 0 <= i < encoded(s).len() ==> encoded(s)[i] != '/',
    decreases s.len(),
{
    if s.len() > 0 {
        let front = encoded_char(s[0]);
        let rest = encoded(s.skip(1));
        lemma_encoded_has_no_slash(s.skip(1));
        assert forall|i: int| 0 <= i < encoded(s).len() implies encoded(s)[i] != '/' by {
            if i >= front.len() {
                assert(encoded(s)[i] == rest[i - front.len()]);
            }
        }
    }
}

proof fn lemma_encoded_injective(a: Seq<char>, b: Seq<char>)
    requires
        encoded(a) == encoded(b),
    ensures
        a == b,
    decreases a.len(),
{
    if a.len() == 0 {
        if b.len() > 0 {
            assert(encoded(b).len() > 0);
        }
        assert(a =~= b);
    } else if b.len() == 0 {
        assert(encoded(a).len() > 0);
    } else {
        let ea = encoded_char(a[0]);
        let eb = encoded_char(b[0]);
        assert(encoded(a)[0] == ea[0]);
        assert(encoded(b)[0] == eb[0]);
        if ea.len() == 3 && eb.len() == 3 {
            assert(encoded(a)[2] == ea[2]);
            assert(encoded(b)[2] == eb[2]);
        }
        assert(a[0] == b[0]);
        assert(encoded(a).skip(ea.len() as int) =~= encoded(a.skip(1)));
        assert(encoded(b).skip(eb.len() as int) =~= encoded(b.skip(1)));
        lemma_encoded_injective(a.skip(1), b.skip(1));
        assert(a =~= seq![a[0]] + a.skip(1));
        assert(b =~= seq![b[0]] + b.skip(1));
    }
}

proof fn lemma_split_at_slash(a: Seq<char>, x: Seq<char>, b: Seq<char>, y: Seq<char>)
    requires
        a + seq!['/'] + x == b + seq!['/'] + y,
        forall|i: int| 0 <= i < a.len() ==> a[i] != '/',
        forall|i: int| 0 <= i < b.len() ==> b[i] != '/',
    ensures
        a == b,
        x == y,
{
    let s = a + seq!['/'] + x;
    let t = b + seq!['/'] + y;
    assert(s[a.len() as int] == '/');
    assert(t[b.len() as int] == '/');
    if a.len() < b.len() {
        assert(t[a.len() as int] == b[a.len() as int]);
    } else if b.len() < a.len() {
        assert(s[b.len() as int] == a[b.len() as int]);
    }
    assert(a =~= s.take(a.len() as int));
    assert(b =~= t.take(b.len() as int));
    assert(x =~= s.skip(a.len() as int + 1));
    assert(y =~= t.skip(b.len() as int + 1));
}

/// Two buckets never share a key, whatever their parts hold.
pub proof fn law_bucket_keys_are_distinct(a: BucketId, b: BucketId)
    requires
        bucket_key(a) == bucket_key(b),
    ensures
        a == b,
{
    lemma_encoded_has_no_slash(a.provider);
    lemma_encoded_has_no_slash(b.provider);
    lemma_encoded_has_no_slash(a.model);
    lemma_encoded_has_no_slash(b.model);
    let ra = encoded(a.model) + seq!['/'] + encoded(a.effort);
    let rb = encoded(b.model) + seq!['/'] + encoded(b.effort);
    assert(bucket_key(a) =~= encoded(a.provider) + seq!['/'] + ra);
    assert(bucket_key(b) =~= encoded(b.provider) + seq!['/'] + rb);
    lemma_split_at_slash(encoded(a.provider), ra, encoded(b.provider), rb);
    lemma_split_at_slash(encoded(a.model), encoded(a.effort), encoded(b.model), encoded(b.effort));
    lemma_encoded_injective(a.provider, b.provider);
    lemma_encoded_injective(a.model, b.model);
    lemma_encoded_injective(a.effort, b.effort);
}

/// The key of a bucket is its provider, model and effort with slashes between them; in
/// each of them a slash stands as `%2F`, a percent sign as `%25`, and any other character
/// as it is.
pub proof fn law_how_keys_are_made(b: BucketId, c: char, s: Seq<char>)
    ensures
        bucket_key(b) == encoded(b.provider) + "/"@ + encoded(b.model) + "/"@ + encoded(b.effort),
        encoded(Seq::empty()).len() == 0,
        encoded(seq![c] + s) == encoded(seq![c]) + encoded(s),
        encoded(seq!['/']) == "%2F"@,
        encoded(seq!['%']) == "%25"@,
        c != '/' && c != '%' ==> encoded(seq![c]) == seq![c],
{
    reveal_strlit("/");
    reveal_strlit("%2F");
    reveal_strlit("%25");
    assert("/"@ =~= seq!['/']);
    assert((seq![c] + s).skip(1) =~= s);
    assert((seq![c] + s)[0] == c);
    lemma_one_encoded(c);
    lemma_one_encoded('/');
    lemma_one_encoded('%');
    assert("%2F"@ =~= seq!['%', '2', 'F']);
    assert("%25"@ =~= seq!['%', '2', '5']);
}

proof fn lemma_one_encoded(c: char)
    ensures
        encoded(seq![c]) == encoded_char(c),
{
    let one = seq![c];
    assert(one.skip(1) =~= Seq::<char>::empty());
    assert(encoded(one.skip(1)) =~= Seq::<char>::empty());
    assert(one[0] == c);
    assert(encoded_char(c) + Seq::<char>::empty() =~= encoded_char(c));
}

/// A part of a bucket that is empty is `unknown`.
pub proof fn law_what_is_not_known(provider: Seq<char>, model: Seq<char>, effort: Seq<char>)
    ensures
        ({
            let b = bucket_of(provider, model, effort);
            &&& provider.len() > 0 ==> b.provider == provider
            &&& model.len() > 0 ==> b.model == model
            &&& effort.len() > 0 ==> b.effort == effort
            &&& provider.len() == 0 ==> b.provider == "unknown"@
            &&& model.len() == 0 ==> b.model == "unknown"@
            &&& effort.len() == 0 ==> b.effort == "unknown"@
        }),
{
}

/// Usage is any token or any cost, but neither a request nor a duration.
pub proof fn law_what_usage_is(s: ModelStats)
    ensures
        s.spec_has_usage() <==> s.input_tokens > 0 || s.output_tokens > 0 || s.cache_read_tokens > 0
            || s.cache_creation_tokens > 0 || s.reasoning_output_tokens > 0 || s.cost_usd.units > 0,
{
}

/// Counters are taken away one by one, and stop at zero.
pub proof fn law_counters_are_taken_away_one_by_one(a: ModelStats, s: ModelStats)
    ensures
        ({
            let b = a.minus(s);
            let less = |x: int, y: int|
                if x > y {
                    x - y
                } else {
                    0
                };
            &&& b.request_count == less(a.request_count as int, s.request_count as int)
            &&& b.input_tokens == less(a.input_tokens as int, s.input_tokens as int)
            &&& b.output_tokens == less(a.output_tokens as int, s.output_tokens as int)
            &&& b.cache_read_tokens == less(a.cache_read_tokens as int, s.cache_read_tokens as int)
            &&& b.cache_creation_tokens == less(
                a.cache_creation_tokens as int,
                s.cache_creation_tokens as int,
            )
            &&& b.reasoning_output_tokens == less(
                a.reasoning_output_tokens as int,
                s.reasoning_output_tokens as int,
            )
            &&& b.cost_usd.units == less(a.cost_usd.units as int, s.cost_usd.units as int)
            &&& b.duration_ms == less(a.duration_ms as int, s.duration_ms as int)
        }),
{
}

/// Adding a sample adds each of its counters to the one of the same name, and taking it
/// away takes each away, within the limits of the counters.
pub proof fn law_adding_and_taking_away(
    a: &mut ModelStats,
    b: &mut ModelStats,
    sample: ModelStats,
    r: (),
)
    requires
        call_ensures(ModelStats::add, (a, &sample), r),
        call_ensures(ModelStats::subtract, (b, &sample), r),
    ensures
        old(a).has_room_for(sample) ==> {
            &&& final(a).request_count == old(a).request_count + sample.request_count
            &&& final(a).input_tokens == old(a).input_tokens + sample.input_tokens
            &&& final(a).output_tokens == old(a).output_tokens + sample.output_tokens
            &&& final(a).cache_read_tokens == old(a).cache_read_tokens + sample.cache_read_tokens
            &&& final(a).cache_creation_tokens == old(a).cache_creation_tokens
                + sample.cache_creation_tokens
            &&& final(a).reasoning_output_tokens == old(a).reasoning_output_tokens
                + sample.reasoning_output_tokens
            &&& final(a).cost_usd.units == old(a).cost_usd.units + sample.cost_usd.units
            &&& final(a).duration_ms == old(a).duration_ms + sample.duration_ms
        },
        sample.at_most(*old(b)) ==> {
            &&& final(b).request_count == old(b).request_count - sample.request_count
            &&& final(b).input_tokens == old(b).input_tokens - sample.input_tokens
            &&& final(b).output_tokens == old(b).output_tokens - sample.output_tokens
            &&& final(b).cache_read_tokens == old(b).cache_read_tokens - sample.cache_read_tokens
            &&& final(b).cache_creation_tokens == old(b).cache_creation_tokens
                - sample.cache_creation_tokens
            &&& final(b).reasoning_output_tokens == old(b).reasoning_output_tokens
                - sample.reasoning_output_tokens
            &&& final(b).cost_usd.units == old(b).cost_usd.units - sample.cost_usd.units
            &&& final(b).duration_ms == old(b).duration_ms - sample.duration_ms
        },
{
}

} // verus!
