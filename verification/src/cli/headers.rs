//! Headers that are sent along with forwarded telemetry.

use super::error::{Refusal, SettingsError};
use crate::sorted::is_text_less;
use crate::text::{chars_of, copy_range, find_char, is_control, text_of, to_ascii_lower, trim};
use vstd::prelude::*;

verus! {

/// A header.
pub struct Header {
    pub key: String,
    pub value: String,
}

impl View for Header {
    type V = (Seq<char>, Seq<char>);

    open spec fn view(&self) -> (Seq<char>, Seq<char>) {
        (self.key@, self.value@)
    }
}

/// The keys and values of headers.
pub open spec fn header_views(s: Seq<Header>) -> Seq<(Seq<char>, Seq<char>)> {
    Seq::new(s.len(), |i: int| s[i]@)
}

/// Whether headers stand in the order of their keys, each key once.
pub open spec fn in_key_order(s: Seq<(Seq<char>, Seq<char>)>) -> bool {
    forall|i: int, j: int|
        0 <= i < j < s.len() ==> crate::sorted::text_less(
            #[trigger] s[i].0,
            #[trigger] s[j].0,
        )
}

/// Headers in the order of their keys.
pub struct Headers {
    entries: Vec<Header>,
}

impl View for Headers {
    type V = Seq<(Seq<char>, Seq<char>)>;

    closed spec fn view(&self) -> Seq<(Seq<char>, Seq<char>)> {
        header_views(self.entries@)
    }
}

/// Where a key belongs, from `from` on: the first place whose key is not less.
pub open spec fn place_of(s: Seq<(Seq<char>, Seq<char>)>, key: Seq<char>, from: int) -> int
    decreases s.len() - from,
{
    if from >= s.len() {
        s.len() as int
    } else if crate::sorted::text_less(s[from].0, key) {
        place_of(s, key, from + 1)
    } else {
        from
    }
}

/// Headers with one set: a header of the same key is replaced.
pub open spec fn with_header(
    s: Seq<(Seq<char>, Seq<char>)>,
    key: Seq<char>,
    value: Seq<char>,
) -> Seq<(Seq<char>, Seq<char>)> {
    let i = place_of(s, key, 0);
    if i < s.len() && s[i].0 == key {
        s.update(i, (key, value))
    } else {
        s.insert(i, (key, value))
    }
}

/// The value of the first header of a key, from `from` on.
pub open spec fn value_of(s: Seq<(Seq<char>, Seq<char>)>, key: Seq<char>, from: int) -> Option<
    Seq<char>,
>
    decreases s.len() - from,
{
    if from >= s.len() {
        None
    } else if s[from].0 == key {
        Some(s[from].1)
    } else {
        value_of(s, key, from + 1)
    }
}

proof fn lemma_place(s: Seq<(Seq<char>, Seq<char>)>, key: Seq<char>, from: int)
    requires
        0 <= from <= s.len(),
    ensures
        ({
            let i = place_of(s, key, from);
            &&& from <= i <= s.len()
            &&& forall|j: int| from <= j < i ==> crate::sorted::text_less(#[trigger] s[j].0, key)
            &&& i < s.len() ==> !crate::sorted::text_less(s[i].0, key)
        }),
    decreases s.len() - from,
{
    if from < s.len() && crate::sorted::text_less(s[from].0, key) {
        lemma_place(s, key, from + 1);
    }
}

/// Setting a header keeps the order of the keys.
proof fn lemma_set_keeps_order(
    s: Seq<(Seq<char>, Seq<char>)>,
    key: Seq<char>,
    value: Seq<char>,
)
    requires
        in_key_order(s),
    ensures
        in_key_order(with_header(s, key, value)),
{
    let i = place_of(s, key, 0);
    let t = with_header(s, key, value);
    lemma_place(s, key, 0);
    if !(i < s.len() && s[i].0 == key) {
        assert forall|a: int, b: int| 0 <= a < b < t.len() implies crate::sorted::text_less(
            #[trigger] t[a].0,
            #[trigger] t[b].0,
        ) by {
            let x = if a < i {
                a
            } else {
                a - 1
            };
            let y = if b < i {
                b
            } else {
                b - 1
            };
            if a == i {
                crate::sorted::lemma_less_total(s[i].0, key);
                if b > i + 1 {
                    assert(crate::sorted::text_less(s[i].0, s[y].0));
                    crate::sorted::lemma_less_transitive(key, s[i].0, s[y].0);
                }
            } else if b == i {
                assert(t[a] == s[a]);
            } else {
                assert(t[a] == s[x] && t[b] == s[y]);
                assert(crate::sorted::text_less(s[x].0, s[y].0));
            }
        }
    }
}

proof fn lemma_value_found(s: Seq<(Seq<char>, Seq<char>)>, key: Seq<char>, i: int, from: int)
    requires
        in_key_order(s),
        0 <= from <= i < s.len(),
        s[i].0 == key,
    ensures
        value_of(s, key, from) == Some(s[i].1),
    decreases i - from,
{
    if from < i {
        assert(crate::sorted::text_less(s[from].0, s[i].0));
        crate::sorted::lemma_less_irreflexive(key);
        lemma_value_found(s, key, i, from + 1);
    }
}

proof fn lemma_value_missing(s: Seq<(Seq<char>, Seq<char>)>, key: Seq<char>, from: int)
    requires
        0 <= from,
        forall|i: int| from <= i < s.len() ==> #[trigger] s[i].0 != key,
    ensures
        value_of(s, key, from) is None,
    decreases s.len() - from,
{
    if from < s.len() {
        lemma_value_missing(s, key, from + 1);
    }
}

/// Where a header of a key stands, if there is one.
proof fn lemma_value(s: Seq<(Seq<char>, Seq<char>)>, key: Seq<char>)
    requires
        in_key_order(s),
    ensures
        forall|i: int|
            0 <= i < s.len() && #[trigger] s[i].0 == key ==> value_of(s, key, 0) == Some(s[i].1),
        (forall|i: int| 0 <= i < s.len() ==> #[trigger] s[i].0 != key) ==> value_of(s, key, 0)
            is None,
{
    assert forall|i: int| 0 <= i < s.len() && #[trigger] s[i].0 == key implies value_of(s, key, 0)
        == Some(s[i].1) by {
        lemma_value_found(s, key, i, 0);
    }
    if forall|i: int| 0 <= i < s.len() ==> #[trigger] s[i].0 != key {
        lemma_value_missing(s, key, 0);
    }
}

/// Headers are a map that is read in the order of its keys: setting one gives its
/// key the value, leaves all others and keeps the order.
pub proof fn law_setting_a_header(
    s: Seq<(Seq<char>, Seq<char>)>,
    key: Seq<char>,
    value: Seq<char>,
    other: Seq<char>,
)
    requires
        in_key_order(s),
    ensures
        in_key_order(with_header(s, key, value)),
        value_of(with_header(s, key, value), key, 0) == Some(value),
        other != key ==> value_of(with_header(s, key, value), other, 0) == value_of(s, other, 0),
{
    let i = place_of(s, key, 0);
    let t = with_header(s, key, value);
    lemma_place(s, key, 0);
    lemma_set_keeps_order(s, key, value);
    lemma_value(t, key);
    assert(t[i].0 == key);
    if other != key {
        lemma_value(s, other);
        lemma_value(t, other);
        if exists|j: int| 0 <= j < s.len() && #[trigger] s[j].0 == other {
            let j = choose|j: int| 0 <= j < s.len() && #[trigger] s[j].0 == other;
            if j < i || t.len() == s.len() {
                assert(t[j] == s[j]);
            } else {
                assert(t[j + 1] == s[j]);
            }
        } else {
            assert forall|j: int| 0 <= j < t.len() implies #[trigger] t[j].0 != other by {
                if j != i {
                    assert(t[j] == s[if j < i || t.len() == s.len() {
                        j
                    } else {
                        j - 1
                    }]);
                }
            }
        }
    }
}

impl Headers {
    #[verifier::type_invariant]
    spec fn is_ordered(&self) -> bool {
        in_key_order(header_views(self.entries@))
    }

    /// No headers.
    pub fn new() -> (r: Headers)
        ensures
            r@ == Seq::<(Seq<char>, Seq<char>)>::empty(),
            in_key_order(r@),
    {
        let r = Headers { entries: Vec::new() };
        assert(r@ =~= Seq::<(Seq<char>, Seq<char>)>::empty());
        r
    }

    /// Sets a header.
    pub fn set(&mut self, key: String, value: String)
        ensures
            final(self)@ == with_header(old(self)@, key@, value@),
            in_key_order(final(self)@),
    {
        let ghost before = self@;
        proof {
            use_type_invariant(&*self);
            lemma_set_keeps_order(before, key@, value@);
        }
        let mut entries: Vec<Header> = Vec::new();
        std::mem::swap(&mut entries, &mut self.entries);
        let mut i: usize = 0;
        while i < entries.len() && is_text_less(entries[i].key.as_str(), key.as_str())
            invariant
                header_views(entries@) == before,
                i <= entries@.len(),
                place_of(before, key@, 0) == place_of(before, key@, i as int),
            decreases entries@.len() - i,
        {
            assert(before[i as int] == entries@[i as int]@);
            i = i + 1;
        }
        proof {
            if i < entries@.len() {
                assert(before[i as int] == entries@[i as int]@);
            }
        }
        if i < entries.len() && entries[i].key == key {
            entries[i] = Header { key, value };
            assert(header_views(entries@) =~= before.update(i as int, (key@, value@)));
        } else {
            entries.insert(i, Header { key, value });
            assert(header_views(entries@) =~= before.insert(i as int, (key@, value@)));
        }
        self.entries = entries;
    }

    /// Another copy.
    pub fn duplicate(&self) -> (r: Headers)
        ensures
            r@ == self@,
            in_key_order(r@),
    {
        proof {
            use_type_invariant(self);
        }
        let mut out: Vec<Header> = Vec::new();
        for i in 0..self.entries.len()
            invariant
                header_views(out@) == self@.take(i as int),
        {
            let ghost before = header_views(out@);
            out.push(
                Header { key: self.entries[i].key.clone(), value: self.entries[i].value.clone() },
            );
            assert(header_views(out@) =~= before.push(self.entries@[i as int]@));
            assert(self@[i as int] == self.entries@[i as int]@);
            assert(header_views(out@) =~= self@.take(i + 1));
        }
        assert(self@.take(self@.len() as int) =~= self@);
        Headers { entries: out }
    }
}

/// The key and value of a header that is written as `KEY=VALUE`.
pub open spec fn entry_parts(entry: Seq<char>) -> Result<(Seq<char>, Seq<char>), Refusal> {
    let i = crate::text::position(entry, '=');
    let key = crate::text::trimmed(entry.take(i));
    if i >= entry.len() {
        Err(Refusal::HeaderFormat { entry })
    } else if key.len() == 0 {
        Err(Refusal::HeaderKeyMissing { entry })
    } else {
        Ok((key, entry.skip(i + 1)))
    }
}

/// Headers with those of the command line set in turn, or the first refusal.
pub open spec fn with_entries(s: Seq<(Seq<char>, Seq<char>)>, entries: Seq<String>) -> Result<
    Seq<(Seq<char>, Seq<char>)>,
    Refusal,
>
    decreases entries.len(),
{
    if entries.len() == 0 {
        Ok(s)
    } else {
        match with_entries(s, entries.drop_last()) {
            Err(e) => Err(e),
            Ok(t) => match entry_parts(entries.last()@) {
                Err(e) => Err(e),
                Ok((key, value)) => Ok(with_header(t, key, value)),
            },
        }
    }
}

/// Headers with those of the command line set in turn, up to the first that is
/// refused.
pub open spec fn with_good_entries(
    s: Seq<(Seq<char>, Seq<char>)>,
    entries: Seq<String>,
) -> Seq<(Seq<char>, Seq<char>)>
    decreases entries.len(),
{
    if entries.len() == 0 {
        s
    } else {
        match with_entries(s, entries) {
            Ok(t) => t,
            Err(_) => with_good_entries(s, entries.drop_last()),
        }
    }
}

/// Whether a character may stand in a header key: it is visible ASCII and no
/// delimiter.
pub open spec fn token_char(c: char) -> bool {
    '!' <= c && c <= '~' && c != '(' && c != ')' && c != ',' && c != '/' && c != ':' && c != ';'
        && c != '<' && c != '=' && c != '>' && c != '?' && c != '@' && c != '[' && c != '\\' && c
        != ']' && c != '{' && c != '}' && c != '"'
}

/// The first character from `from` on that may not stand in a header key.
pub open spec fn bad_key_char(key: Seq<char>, from: int) -> Option<char>
    decreases key.len() - from,
{
    if from >= key.len() {
        None
    } else if !token_char(key[from]) {
        Some(key[from])
    } else {
        bad_key_char(key, from + 1)
    }
}

/// Whether a header must not be set.
pub open spec fn reserved(key: Seq<char>) -> bool {
    let k = crate::text::ascii_lower(key);
    k == "host"@ || k == "content-length"@ || k == "transfer-encoding"@
}

/// Why a header key is refused.
pub open spec fn key_refusal(key: Seq<char>, route: Seq<char>) -> Option<Refusal> {
    if key.len() == 0 {
        Some(Refusal::EmptyHeaderKey { route })
    } else if bad_key_char(key, 0) is Some {
        Some(Refusal::HeaderKeyCharacter { route, key, character: bad_key_char(key, 0)->0 })
    } else if reserved(key) {
        Some(Refusal::ReservedHeader { route, key })
    } else {
        None
    }
}

/// Whether a character may stand in a header value.
pub open spec fn value_char(c: char) -> bool {
    !crate::text::control_char(c) || c == '\t'
}

/// Why a header value is refused, from position `from` on.
pub open spec fn value_refusal(
    key: Seq<char>,
    value: Seq<char>,
    route: Seq<char>,
    from: int,
) -> Option<Refusal>
    decreases value.len() - from,
{
    if from >= value.len() {
        None
    } else if value[from] == '\n' || value[from] == '\r' {
        Some(Refusal::HeaderLineBreak { route, key, position: from })
    } else if !value_char(value[from]) {
        Some(Refusal::HeaderControl { route, key, position: from })
    } else {
        value_refusal(key, value, route, from + 1)
    }
}

/// A variable of the environment.
pub struct EnvVar {
    pub name: String,
    pub value: String,
}

/// The value of the first variable of a name, from `from` on.
pub open spec fn env_value(env: Seq<EnvVar>, name: Seq<char>, from: int) -> Option<Seq<char>>
    decreases env.len() - from,
{
    if from >= env.len() {
        None
    } else if env[from].name@ == name {
        Some(env[from].value@)
    } else {
        env_value(env, name, from + 1)
    }
}

/// The variable that a header value refers to.
pub open spec fn env_reference(value: Seq<char>) -> Option<Seq<char>> {
    if value.len() >= 4 && value.take(4) == "env:"@ {
        Some(value.skip(4))
    } else {
        None
    }
}

/// A header as it is sent, or why it is refused.
pub open spec fn sent_header(
    h: (Seq<char>, Seq<char>),
    env: Seq<EnvVar>,
    route: Seq<char>,
) -> Result<(Seq<char>, Seq<char>), Refusal> {
    let value = match env_reference(h.1) {
        Some(variable) => env_value(env, variable, 0),
        None => Some(h.1),
    };
    if key_refusal(h.0, route) is Some {
        Err(key_refusal(h.0, route)->0)
    } else if value is None {
        Err(Refusal::EnvNotSet { route, variable: env_reference(h.1)->0, key: h.0 })
    } else if value_refusal(h.0, value->0, route, 0) is Some {
        Err(value_refusal(h.0, value->0, route, 0)->0)
    } else {
        Ok((h.0, value->0))
    }
}

/// Headers as they are sent, or the first refusal.
pub open spec fn sent_headers(
    s: Seq<(Seq<char>, Seq<char>)>,
    env: Seq<EnvVar>,
    route: Seq<char>,
) -> Result<Seq<(Seq<char>, Seq<char>)>, Refusal>
    decreases s.len(),
{
    if s.len() == 0 {
        Ok(Seq::empty())
    } else {
        match sent_headers(s.drop_last(), env, route) {
            Err(e) => Err(e),
            Ok(t) => match sent_header(s.last(), env, route) {
                Err(e) => Err(e),
                Ok(h) => Ok(t.push(h)),
            },
        }
    }
}

/// Sets the headers of the command line. Those before the first that is refused
/// are set also where it fails.
pub fn merge_cli_headers(dest: &mut Headers, entries: &Vec<String>) -> (r: Result<
    (),
    SettingsError,
>)
    ensures
        match with_entries(old(dest)@, entries@) {
            Ok(s) => r is Ok && final(dest)@ == s,
            Err(e) => r matches Err(x) && x@ == e,
        },
        final(dest)@ == with_good_entries(old(dest)@, entries@),
        in_key_order(final(dest)@),
{
    proof {
        use_type_invariant(&*dest);
    }
    let ghost start = dest@;
    let mut k: usize = 0;
    assert(entries@.take(0) =~= Seq::<String>::empty());
    while k < entries.len()
        invariant
            k <= entries@.len(),
            with_entries(start, entries@.take(k as int)) == Ok::<
                Seq<(Seq<char>, Seq<char>)>,
                Refusal,
            >(dest@),
            start == old(dest)@,
            in_key_order(dest@),
        decreases entries@.len() - k,
    {
        proof {
            assert(entries@.take(k + 1).drop_last() =~= entries@.take(k as int));
            lemma_first_refusal(start, entries@, k + 1);
            lemma_stops_there(start, entries@, k + 1);
            lemma_good_entries(start, entries@.take(k as int));
        }
        let entry = &entries[k];
        let chars = chars_of(entry.as_str());
        let i: usize = find_char(&chars, '=');
        if i >= chars.len() {
            return Err(SettingsError::HeaderFormat { entry: entry.clone() });
        }
        let head = copy_range(&chars, 0, i);
        assert(head@ =~= entry@.take(i as int));
        let key = trim(&head);
        if key.len() == 0 {
            return Err(SettingsError::HeaderKeyMissing { entry: entry.clone() });
        }
        let value = copy_range(&chars, i + 1, chars.len());
        assert(value@ =~= entry@.skip(i + 1));
        dest.set(text_of(&key), text_of(&value));
        k = k + 1;
    }
    assert(entries@.take(entries@.len() as int) =~= entries@);
    proof {
        lemma_good_entries(start, entries@);
    }
    Ok(())
}

/// Where nothing is refused, all is set.
proof fn lemma_good_entries(s: Seq<(Seq<char>, Seq<char>)>, entries: Seq<String>)
    ensures
        with_entries(s, entries) matches Ok(t) ==> with_good_entries(s, entries) == t,
{
}

/// After a refusal nothing more is set.
proof fn lemma_stops_there(s: Seq<(Seq<char>, Seq<char>)>, entries: Seq<String>, k: int)
    requires
        0 <= k <= entries.len(),
    ensures
        with_entries(s, entries.take(k)) is Err ==> with_good_entries(s, entries)
            == with_good_entries(s, entries.take(k)),
    decreases entries.len(),
{
    if k < entries.len() {
        assert(entries.drop_last().take(k) =~= entries.take(k));
        lemma_stops_there(s, entries.drop_last(), k);
        lemma_first_refusal(s, entries, k);
        lemma_first_refusal(s, entries.drop_last(), k);
    } else {
        assert(entries.take(k) =~= entries);
    }
}

/// A refusal of the first entries is a refusal of all of them.
proof fn lemma_first_refusal(s: Seq<(Seq<char>, Seq<char>)>, entries: Seq<String>, k: int)
    requires
        0 <= k <= entries.len(),
    ensures
        with_entries(s, entries.take(k)) is Err ==> with_entries(s, entries) == with_entries(
            s,
            entries.take(k),
        ),
    decreases entries.len(),
{
    if k < entries.len() {
        assert(entries.drop_last().take(k) =~= entries.take(k));
        lemma_first_refusal(s, entries.drop_last(), k);
    } else {
        assert(entries.take(k) =~= entries);
    }
}

proof fn lemma_first_unsent(
    s: Seq<(Seq<char>, Seq<char>)>,
    env: Seq<EnvVar>,
    route: Seq<char>,
    k: int,
)
    requires
        0 <= k <= s.len(),
    ensures
        sent_headers(s.take(k), env, route) is Err ==> sent_headers(s, env, route) == sent_headers(
            s.take(k),
            env,
            route,
        ),
    decreases s.len(),
{
    if k < s.len() {
        assert(s.drop_last().take(k) =~= s.take(k));
        lemma_first_unsent(s.drop_last(), env, route, k);
    } else {
        assert(s.take(k) =~= s);
    }
}

fn is_token_char(c: char) -> (r: bool)
    ensures
        r == token_char(c),
{
    '!' <= c && c <= '~' && c != '(' && c != ')' && c != ',' && c != '/' && c != ':' && c != ';'
        && c != '<' && c != '=' && c != '>' && c != '?' && c != '@' && c != '[' && c != '\\' && c
        != ']' && c != '{' && c != '}' && c != '"'
}

/// Refuses a header key that is empty, is no token, or must not be set.
pub fn validate_header_key(key: &String, route: &String) -> (r: Result<(), SettingsError>)
    ensures
        match key_refusal(key@, route@) {
            Some(e) => r matches Err(x) && x@ == e,
            None => r is Ok,
        },
{
    let chars = chars_of(key.as_str());
    if chars.len() == 0 {
        return Err(SettingsError::EmptyHeaderKey { route: route.clone() });
    }
    for i in 0..chars.len()
        invariant
            chars@ == key@,
            key@.len() > 0,
            bad_key_char(key@, 0) == bad_key_char(key@, i as int),
    {
        if !is_token_char(chars[i]) {
            return Err(
                SettingsError::HeaderKeyCharacter {
                    route: route.clone(),
                    key: key.clone(),
                    character: chars[i],
                },
            );
        }
    }
    let lower = text_of(&to_ascii_lower(&chars));
    if crate::text::same_text(lower.as_str(), "host") || crate::text::same_text(
        lower.as_str(),
        "content-length",
    ) || crate::text::same_text(lower.as_str(), "transfer-encoding") {
        return Err(SettingsError::ReservedHeader { route: route.clone(), key: key.clone() });
    }
    Ok(())
}

/// Refuses a header value with line breaks or other control characters.
pub fn validate_header_value(key: &String, value: &String, route: &String) -> (r: Result<
    (),
    SettingsError,
>)
    ensures
        match value_refusal(key@, value@, route@, 0) {
            Some(e) => r matches Err(x) && x@ == e,
            None => r is Ok,
        },
{
    let chars = chars_of(value.as_str());
    for i in 0..chars.len()
        invariant
            chars@ == value@,
            value_refusal(key@, value@, route@, 0) == value_refusal(
                key@,
                value@,
                route@,
                i as int,
            ),
    {
        let c = chars[i];
        if c == '\n' || c == '\r' {
            return Err(
                SettingsError::HeaderLineBreak {
                    route: route.clone(),
                    key: key.clone(),
                    position: i,
                },
            );
        }
        if is_control(c) && c != '\t' {
            return Err(
                SettingsError::HeaderControl {
                    route: route.clone(),
                    key: key.clone(),
                    position: i,
                },
            );
        }
    }
    Ok(())
}

/// Looks up a variable of the environment.
pub fn find_env(env: &Vec<EnvVar>, name: &String) -> (r: Option<String>)
    ensures
        crate::clock::text_in(r) == env_value(env@, name@, 0),
{
    for i in 0..env.len()
        invariant
            env_value(env@, name@, 0) == env_value(env@, name@, i as int),
    {
        if env[i].name == *name {
            return Some(env[i].value.clone());
        }
    }
    None
}

/// The headers as they are sent: keys and values are checked, and `env:VAR` is
/// replaced by the value of the variable.
pub fn resolve_headers(raw: &Headers, env: &Vec<EnvVar>, route: &String) -> (r: Result<
    Vec<Header>,
    SettingsError,
>)
    ensures
        match sent_headers(raw@, env@, route@) {
            Ok(s) => r matches Ok(v) && header_views(v@) == s,
            Err(e) => r matches Err(x) && x@ == e,
        },
        r matches Ok(v) ==> in_key_order(header_views(v@)),
{
    proof {
        use_type_invariant(raw);
        law_sent_headers_keep_their_keys(raw@, env@, route@);
    }
    let mut out: Vec<Header> = Vec::new();
    assert(header_views(out@) =~= Seq::<(Seq<char>, Seq<char>)>::empty());
    assert(raw@.take(0) =~= Seq::<(Seq<char>, Seq<char>)>::empty());
    let mut k: usize = 0;
    while k < raw.entries.len()
        invariant
            k <= raw.entries@.len(),
            sent_headers(raw@.take(k as int), env@, route@) == Ok::<
                Seq<(Seq<char>, Seq<char>)>,
                Refusal,
            >(header_views(out@)),
        decreases raw.entries@.len() - k,
    {
        proof {
            assert(raw@.take(k + 1).drop_last() =~= raw@.take(k as int));
            lemma_first_unsent(raw@, env@, route@, k + 1);
            reveal_strlit("env:");
        }
        let entry = &raw.entries[k];
        assert(raw@[k as int] == entry@);
        if let Err(e) = validate_header_key(&entry.key, route) {
            return Err(e);
        }
        let chars = chars_of(entry.value.as_str());
        let refers = chars.len() >= 4 && chars[0] == 'e' && chars[1] == 'n' && chars[2] == 'v'
            && chars[3] == ':';
        proof {
            let start = entry.value@.take(4);
            if refers {
                assert(start =~= "env:"@);
            } else if entry.value@.len() >= 4 && start == "env:"@ {
                assert(start[0] == 'e' && start[1] == 'n' && start[2] == 'v' && start[3] == ':');
            }
        }
        let value = if refers {
            let name = text_of(&copy_range(&chars, 4, chars.len()));
            assert(name@ =~= entry.value@.skip(4));
            match find_env(env, &name) {
                Some(v) => v,
                None => {
                    return Err(
                        SettingsError::EnvNotSet {
                            route: route.clone(),
                            variable: name,
                            key: entry.key.clone(),
                        },
                    );
                },
            }
        } else {
            entry.value.clone()
        };
        if let Err(e) = validate_header_value(&entry.key, &value, route) {
            return Err(e);
        }
        let ghost before = header_views(out@);
        out.push(Header { key: entry.key.clone(), value });
        assert(header_views(out@) =~= before.push((entry.key@, value@)));
        k = k + 1;
    }
    assert(raw@.take(raw@.len() as int) =~= raw@);
    Ok(out)
}

/// Headers are sent in the order of their keys, and under the keys that they have.
pub proof fn law_sent_headers_keep_their_keys(
    s: Seq<(Seq<char>, Seq<char>)>,
    env: Seq<EnvVar>,
    route: Seq<char>,
)
    ensures
        sent_headers(s, env, route) matches Ok(t) ==> {
            &&& t.len() == s.len()
            &&& forall|i: int| 0 <= i < t.len() ==> #[trigger] t[i].0 == s[i].0
            &&& in_key_order(s) ==> in_key_order(t)
        },
    decreases s.len(),
{
    if s.len() > 0 && sent_headers(s, env, route) is Ok {
        law_sent_headers_keep_their_keys(s.drop_last(), env, route);
        let front = sent_headers(s.drop_last(), env, route)->Ok_0;
        let t = sent_headers(s, env, route)->Ok_0;
        assert forall|i: int| 0 <= i < t.len() implies #[trigger] t[i].0 == s[i].0 by {
            if i < front.len() {
                assert(t[i] == front[i]);
                assert(front[i].0 == s.drop_last()[i].0);
            }
        }
    }
}

/// Whether a header is safe to send: its key is a token that may be set, and
/// its value holds no line break and no control character but the tab.
pub open spec fn safe_header(h: (Seq<char>, Seq<char>)) -> bool {
    &&& h.0.len() > 0
    &&& forall|i: int| 0 <= i < h.0.len() ==> token_char(#[trigger] h.0[i])
    &&& !reserved(h.0)
    &&& forall|i: int| 0 <= i < h.1.len() ==> value_char(#[trigger] h.1[i])
}

proof fn lemma_good_key(key: Seq<char>, from: int)
    requires
        0 <= from,
        bad_key_char(key, from) is None,
    ensures
        forall|i: int| from <= i < key.len() ==> token_char(#[trigger] key[i]),
    decreases key.len() - from,
{
    if from < key.len() {
        lemma_good_key(key, from + 1);
    }
}

proof fn lemma_good_value(key: Seq<char>, value: Seq<char>, route: Seq<char>, from: int)
    requires
        0 <= from,
        value_refusal(key, value, route, from) is None,
    ensures
        forall|i: int| from <= i < value.len() ==> value_char(#[trigger] value[i]),
    decreases value.len() - from,
{
    if from < value.len() {
        lemma_good_value(key, value, route, from + 1);
    }
}

/// Whatever the configuration and the environment hold, only safe headers are
/// sent.
pub proof fn law_sent_headers_are_safe(
    s: Seq<(Seq<char>, Seq<char>)>,
    env: Seq<EnvVar>,
    route: Seq<char>,
)
    requires
        sent_headers(s, env, route) is Ok,
    ensures
        forall|i: int|
            0 <= i < sent_headers(s, env, route)->Ok_0.len() ==> safe_header(
                #[trigger] sent_headers(s, env, route)->Ok_0[i],
            ),
    decreases s.len(),
{
    if s.len() > 0 {
        law_sent_headers_are_safe(s.drop_last(), env, route);
        let t = sent_headers(s.drop_last(), env, route)->Ok_0;
        let h = sent_header(s.last(), env, route)->Ok_0;
        lemma_good_key(h.0, 0);
        lemma_good_value(h.0, h.1, route, 0);
        assert(sent_headers(s, env, route)->Ok_0 == t.push(h));
        assert forall|i: int| 0 <= i < sent_headers(s, env, route)->Ok_0.len() implies safe_header(
            #[trigger] sent_headers(s, env, route)->Ok_0[i],
        ) by {
            if i < t.len() {
                assert(safe_header(t[i]));
            }
        }
    }
}

/// A header on the command line is a key, an equals sign and a value. White space around
/// the key does not belong to it; the value is all that follows the first equals sign.
pub proof fn law_headers_on_the_command_line(
    front: Seq<char>,
    key: Seq<char>,
    back: Seq<char>,
    value: Seq<char>,
)
    requires
        forall|i: int| 0 <= i < front.len() ==> crate::text::white_space(#[trigger] front[i]),
        forall|i: int| 0 <= i < back.len() ==> crate::text::white_space(#[trigger] back[i]),
        key.len() > 0 ==> !crate::text::white_space(key[0]) && !crate::text::white_space(
            key.last(),
        ),
        !(front + key + back).contains('='),
    ensures
        ({
            let entry = (front + key + back).push('=') + value;
            &&& key.len() > 0 ==> entry_parts(entry) == Ok::<(Seq<char>, Seq<char>), Refusal>(
                (key, value),
            )
            &&& key.len() == 0 ==> entry_parts(entry) == Err::<(Seq<char>, Seq<char>), Refusal>(
                Refusal::HeaderKeyMissing { entry },
            )
            &&& entry_parts(front + key + back) == Err::<(Seq<char>, Seq<char>), Refusal>(
                Refusal::HeaderFormat { entry: front + key + back },
            )
        }),
{
    let all = front + key + back;
    let entry = all.push('=') + value;
    crate::text::law_before_a_character(all, '=', value);
    crate::text::law_trimming(front, key, back);
    assert(entry.take(all.len() as int) =~= all);
    assert(entry.skip(all.len() as int + 1) =~= value);
}

/// Headers of the command line are set in turn over those that there are: the last one of
/// a key counts, and keys that are not named keep their value.
pub proof fn law_the_last_header_counts(
    s: Seq<(Seq<char>, Seq<char>)>,
    entries: Seq<String>,
    last: String,
    other: Seq<char>,
)
    requires
        in_key_order(s),
        with_entries(s, entries) is Ok,
    ensures
        entry_parts(last@) is Err ==> with_entries(s, entries.push(last)) == Err::<
            Seq<(Seq<char>, Seq<char>)>,
            Refusal,
        >(entry_parts(last@)->Err_0),
        entry_parts(last@) is Ok ==> {
            let (key, value) = entry_parts(last@)->Ok_0;
            let before = with_entries(s, entries)->Ok_0;
            let after = with_entries(s, entries.push(last));
            &&& after is Ok
            &&& value_of(after->Ok_0, key, 0) == Some(value)
            &&& other != key ==> value_of(after->Ok_0, other, 0) == value_of(before, other, 0)
        },
        with_entries(s, Seq::empty()) == Ok::<Seq<(Seq<char>, Seq<char>)>, Refusal>(s),
{
    assert(entries.push(last).drop_last() =~= entries);
    lemma_entries_keep_order(s, entries);
    if let Ok((key, value)) = entry_parts(last@) {
        law_setting_a_header(with_entries(s, entries)->Ok_0, key, value, other);
    }
}

proof fn lemma_entries_keep_order(s: Seq<(Seq<char>, Seq<char>)>, entries: Seq<String>)
    requires
        in_key_order(s),
    ensures
        with_entries(s, entries) matches Ok(t) ==> in_key_order(t),
    decreases entries.len(),
{
    if entries.len() > 0 {
        lemma_entries_keep_order(s, entries.drop_last());
        if let Ok(t) = with_entries(s, entries.drop_last()) {
            if let Ok((key, value)) = entry_parts(entries.last()@) {
                law_setting_a_header(t, key, value, key);
            }
        }
    }
}

proof fn lemma_env_value(env: Seq<EnvVar>, name: Seq<char>, from: int)
    requires
        0 <= from <= env.len(),
    ensures
        env_value(env, name, from) is None ==> forall|i: int|
            from <= i < env.len() ==> (#[trigger] env[i]).name@ != name,
        env_value(env, name, from) matches Some(v) ==> exists|i: int|
            from <= i < env.len() && (#[trigger] env[i]).name@ == name && env[i].value@ == v
                && forall|j: int| from <= j < i ==> (#[trigger] env[j]).name@ != name,
    decreases env.len() - from,
{
    if from < env.len() {
        if env[from].name@ == name {
            assert(env[from].value@ == env_value(env, name, from)->0);
        } else {
            lemma_env_value(env, name, from + 1);
            if let Some(v) = env_value(env, name, from + 1) {
                let i = choose|i: int|
                    from + 1 <= i < env.len() && (#[trigger] env[i]).name@ == name && env[i].value@
                        == v && forall|j: int|
                        from + 1 <= j < i ==> (#[trigger] env[j]).name@ != name;
                assert(env[i].value@ == v);
            }
        }
    }
}

/// A header is sent with the value that it has; one that is `env:` and a name is sent with
/// the value of the variable of that name, and is refused where the environment has none.
pub proof fn law_values_that_are_sent(
    h: (Seq<char>, Seq<char>),
    env: Seq<EnvVar>,
    route: Seq<char>,
    variable: Seq<char>,
)
    ensures
        !(h.1.len() >= 4 && h.1.take(4) == "env:"@) ==> {
            sent_header(h, env, route) matches Ok(t) ==> t == h
        },
        h.1 == "env:"@ + variable ==> {
            &&& sent_header(h, env, route) matches Ok(t) ==> t.0 == h.0 && exists|i: int|
                0 <= i < env.len() && (#[trigger] env[i]).name@ == variable && env[i].value@ == t.1
            &&& (forall|i: int| 0 <= i < env.len() ==> (#[trigger] env[i]).name@ != variable)
                ==> sent_header(h, env, route) is Err
        },
{
    reveal_strlit("env:");
    assert("env:"@.len() == 4);
    lemma_env_value(env, variable, 0);
    if h.1 == "env:"@ + variable {
        assert(h.1.take(4) =~= "env:"@);
        assert(h.1.skip(4) =~= variable);
    }
}

/// Each header is sent, in order, or the first that cannot be is why none is.
pub proof fn law_each_header_is_sent(
    front: Seq<(Seq<char>, Seq<char>)>,
    h: (Seq<char>, Seq<char>),
    env: Seq<EnvVar>,
    route: Seq<char>,
)
    ensures
        sent_headers(Seq::empty(), env, route) is Ok,
        sent_headers(Seq::empty(), env, route)->Ok_0.len() == 0,
        sent_headers(front, env, route) is Err ==> sent_headers(front.push(h), env, route)
            == sent_headers(front, env, route),
        sent_headers(front, env, route) is Ok && sent_header(h, env, route) is Ok
            ==> sent_headers(front.push(h), env, route) == Ok::<
            Seq<(Seq<char>, Seq<char>)>,
            Refusal,
        >(sent_headers(front, env, route)->Ok_0.push(sent_header(h, env, route)->Ok_0)),
        sent_headers(front, env, route) is Ok && sent_header(h, env, route) is Err
            ==> sent_headers(front.push(h), env, route) == Err::<
            Seq<(Seq<char>, Seq<char>)>,
            Refusal,
        >(sent_header(h, env, route)->Err_0),
{
    assert(front.push(h).drop_last() =~= front);
}

/// A header key is made of letters, digits and the other characters of tokens.
pub proof fn law_characters_of_keys(c: char)
    ensures
        token_char(c) <==> 'a' <= c <= 'z' || 'A' <= c <= 'Z' || '0' <= c <= '9' || c == '!' || c
            == '#' || c == '$' || c == '%' || c == '&' || c == '\'' || c == '*' || c == '+' || c
            == '-' || c == '.' || c == '^' || c == '_' || c == '`' || c == '|' || c == '~',
{
}

/// The headers of the connection itself must not be set, however they are written.
pub proof fn law_reserved_headers(key: Seq<char>, value: Seq<char>, env: Seq<EnvVar>, route: Seq<char>)
    ensures
        reserved(key) <==> {
            let lower = crate::text::ascii_lower(key);
            lower == "host"@ || lower == "content-length"@ || lower == "transfer-encoding"@
        },
        reserved(key) ==> sent_header((key, value), env, route) is Err,
        key.len() == 0 ==> sent_header((key, value), env, route) == Err::<
            (Seq<char>, Seq<char>),
            Refusal,
        >(Refusal::EmptyHeaderKey { route }),
{
}

/// A value with a line break or another control character is refused, and any other value
/// of a good key is sent.
pub proof fn law_values_that_are_refused(
    key: Seq<char>,
    value: Seq<char>,
    env: Seq<EnvVar>,
    route: Seq<char>,
    i: int,
)
    requires
        key_refusal(key, route) is None,
        !(value.len() >= 4 && value.take(4) == "env:"@),
        0 <= i < value.len(),
        forall|j: int|
            0 <= j < i ==> (#[trigger] value[j] == '\t' || !crate::text::control_char(value[j])),
    ensures
        value[i] == '\n' || value[i] == '\r' ==> sent_header((key, value), env, route) == Err::<
            (Seq<char>, Seq<char>),
            Refusal,
        >(Refusal::HeaderLineBreak { route, key, position: i }),
        value[i] != '\n' && value[i] != '\r' && value[i] != '\t' && crate::text::control_char(
            value[i],
        ) ==> sent_header((key, value), env, route) == Err::<(Seq<char>, Seq<char>), Refusal>(
            Refusal::HeaderControl { route, key, position: i },
        ),
{
    lemma_value_prefix(key, value, route, i, 0);
}

proof fn lemma_value_prefix(
    key: Seq<char>,
    value: Seq<char>,
    route: Seq<char>,
    i: int,
    from: int,
)
    requires
        0 <= from <= i < value.len(),
        forall|j: int|
            0 <= j < i ==> (#[trigger] value[j] == '\t' || !crate::text::control_char(value[j])),
    ensures
        value_refusal(key, value, route, from) == value_refusal(key, value, route, i),
    decreases i - from,
{
    if from < i {
        assert(value[from] == '\t' || !crate::text::control_char(value[from]));
        lemma_value_prefix(key, value, route, i, from + 1);
    }
}

/// A safe header is sent as it is.
pub proof fn law_safe_headers_are_sent(
    h: (Seq<char>, Seq<char>),
    env: Seq<EnvVar>,
    route: Seq<char>,
)
    requires
        safe_header(h),
        !(h.1.len() >= 4 && h.1.take(4) == "env:"@),
    ensures
        sent_header(h, env, route) == Ok::<(Seq<char>, Seq<char>), Refusal>(h),
{
    lemma_no_bad_key(h.0, 0);
    lemma_no_bad_value(h.0, h.1, route, 0);
}

proof fn lemma_no_bad_key(key: Seq<char>, from: int)
    requires
        0 <= from,
        forall|i: int| 0 <= i < key.len() ==> token_char(#[trigger] key[i]),
    ensures
        bad_key_char(key, from) is None,
    decreases key.len() - from,
{
    if from < key.len() {
        assert(token_char(key[from]));
        lemma_no_bad_key(key, from + 1);
    }
}

proof fn lemma_no_bad_value(key: Seq<char>, value: Seq<char>, route: Seq<char>, from: int)
    requires
        0 <= from,
        forall|i: int| 0 <= i < value.len() ==> value_char(#[trigger] value[i]),
    ensures
        value_refusal(key, value, route, from) is None,
    decreases value.len() - from,
{
    if from < value.len() {
        assert(value_char(value[from]));
        lemma_no_bad_value(key, value, route, from + 1);
    }
}

} // verus!
