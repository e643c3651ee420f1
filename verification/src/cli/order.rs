//! The order of the routes: it is the same, however the configuration file
//! orders them.

use super::headers::EnvVar;
use super::routes::VendorArgs;
use super::SinkView;
use crate::config::{ProxyRouteConfig, ProxyTable, RouteConfigView};
use vstd::prelude::*;

verus! {

/// What the configuration file says of routes.
pub open spec fn config_views(s: Seq<ProxyRouteConfig>) -> Seq<RouteConfigView> {
    Seq::new(s.len(), |i: int| s[i]@)
}

/// Whether no two routes have the same name.
pub open spec fn distinct_names(s: Seq<RouteConfigView>) -> bool {
    forall|i: int, j: int|
        0 <= i < s.len() && 0 <= j < s.len() && i != j ==> #[trigger] s[i].name
            != #[trigger] s[j].name
}

/// Whether names ascend.
pub open spec fn names_ascend(s: Seq<RouteConfigView>) -> bool {
    forall|i: int, j: int|
        0 <= i < j < s.len() ==> crate::sorted::text_less(
            #[trigger] s[i].name,
            #[trigger] s[j].name,
        )
}

/// Whether one route comes before another: the built-in Anthropic route first,
/// then that of OpenAI, then the others in the order of their names.
pub open spec fn goes_before(a: Seq<char>, b: Seq<char>) -> bool {
    if a == "anthropic"@ {
        b != "anthropic"@
    } else if b == "anthropic"@ {
        false
    } else if a == "openai"@ {
        b != "openai"@
    } else if b == "openai"@ {
        false
    } else {
        crate::sorted::text_less(a, b)
    }
}

proof fn lemma_no_duplicate(routes: Seq<ProxyRouteConfig>, from: int)
    requires
        0 <= from,
    ensures
        super::routes::duplicate_name(routes, from) is None <==> forall|i: int|
            from <= i < routes.len() ==> !#[trigger] super::routes::named_before(routes, i),
    decreases routes.len() - from,
{
    if from < routes.len() {
        lemma_no_duplicate(routes, from + 1);
        if !super::routes::named_before(routes, from) {
            assert forall|i: int|
                (forall|k: int|
                    from < k < routes.len() ==> !#[trigger] super::routes::named_before(routes, k))
                    && from <= i < routes.len() implies !#[trigger] super::routes::named_before(
                routes,
                i,
            ) by {}
        }
    }
}

/// Routes are refused for their names exactly where two have the same.
pub proof fn lemma_distinct(routes: Seq<ProxyRouteConfig>)
    ensures
        super::routes::duplicate_name(routes, 0) is None <==> distinct_names(config_views(routes)),
{
    let s = config_views(routes);
    lemma_no_duplicate(routes, 0);
    if distinct_names(s) {
        assert forall|i: int| 0 <= i < routes.len() implies !#[trigger] super::routes::named_before(
            routes,
            i,
        ) by {
            if super::routes::named_before(routes, i) {
                let j = choose|j: int| 0 <= j < i && (#[trigger] routes[j]).name@ == routes[i].name@;
                assert(s[j].name == s[i].name);
            }
        }
    } else {
        let (a, b) = choose|i: int, j: int|
            0 <= i < s.len() && 0 <= j < s.len() && i != j && #[trigger] s[i].name
                == #[trigger] s[j].name;
        let (i, j) = if a < b {
            (a, b)
        } else {
            (b, a)
        };
        assert(routes[i].name@ == routes[j].name@);
        assert(super::routes::named_before(routes, j));
    }
}

proof fn lemma_route_place(s: Seq<ProxyRouteConfig>, name: Seq<char>, from: int)
    requires
        0 <= from <= s.len(),
    ensures
        ({
            let i = super::routes::route_place(s, name, from);
            &&& from <= i <= s.len()
            &&& forall|j: int| from <= j < i ==> crate::sorted::text_less(
                (#[trigger] s[j]).name@,
                name,
            )
            &&& i < s.len() ==> !crate::sorted::text_less(s[i].name@, name)
        }),
    decreases s.len() - from,
{
    if from < s.len() && crate::sorted::text_less(s[from].name@, name) {
        lemma_route_place(s, name, from + 1);
    }
}

/// A route goes where its name belongs.
proof fn lemma_placed(s: Seq<ProxyRouteConfig>, r: ProxyRouteConfig)
    requires
        names_ascend(config_views(s)),
        forall|i: int| 0 <= i < s.len() ==> (#[trigger] s[i]).name@ != r.name@,
    ensures
        ({
            let t = s.insert(super::routes::route_place(s, r.name@, 0), r);
            &&& names_ascend(config_views(t))
            &&& forall|x: RouteConfigView| #[trigger]
                config_views(t).contains(x) <==> config_views(s).contains(x) || x == r@
        }),
{
    let p = super::routes::route_place(s, r.name@, 0);
    let t = s.insert(p, r);
    let u = config_views(s);
    let v = config_views(t);
    lemma_route_place(s, r.name@, 0);
    assert(v =~= u.insert(p, r@));
    assert forall|a: int, b: int| 0 <= a < b < v.len() implies crate::sorted::text_less(
        #[trigger] v[a].name,
        #[trigger] v[b].name,
    ) by {
        let y = b - 1;
        if a < p && b < p {
            assert(v[a] == u[a] && v[b] == u[b]);
        } else if a < p && b == p {
            assert(v[a] == s[a]@);
        } else if a < p {
            assert(v[a] == u[a] && v[b] == u[y]);
        } else if a == p {
            assert(v[b] == u[y]);
            assert(s[p].name@ != r.name@);
            crate::sorted::lemma_less_total(s[p].name@, r.name@);
            assert(u[p].name == s[p].name@);
            if y > p {
                crate::sorted::lemma_less_transitive(r.name@, u[p].name, u[y].name);
            }
        } else {
            let x = a - 1;
            assert(v[a] == u[x] && v[b] == u[y]);
        }
    }
    assert forall|x: RouteConfigView| #[trigger]
        v.contains(x) implies u.contains(x) || x == r@ by {
        let i = choose|i: int| 0 <= i < v.len() && v[i] == x;
        if i < p {
            assert(u[i] == x);
        } else if i > p {
            assert(u[i - 1] == x);
        }
    }
    assert forall|x: RouteConfigView| u.contains(x) || x == r@ implies #[trigger] v.contains(x) by {
        if x == r@ {
            assert(v[p] == x);
        } else {
            let i = choose|i: int| 0 <= i < u.len() && u[i] == x;
            if i < p {
                assert(v[i] == x);
            } else {
                assert(v[i + 1] == x);
            }
        }
    }
}

/// The routes that are not built in stand in the order of their names, and none is
/// lost.
pub proof fn lemma_custom_in_order(routes: Seq<ProxyRouteConfig>)
    requires
        distinct_names(config_views(routes)),
    ensures
        ({
            let c = config_views(super::routes::custom_in_order(routes));
            &&& names_ascend(c)
            &&& forall|x: RouteConfigView| #[trigger]
                c.contains(x) <==> config_views(routes).contains(x) && !super::routes::built_in(
                    x.name,
                )
        }),
    decreases routes.len(),
{
    let s = config_views(routes);
    if routes.len() > 0 {
        let front = routes.drop_last();
        let r = routes.last();
        let u = config_views(front);
        assert(u =~= s.drop_last());
        assert(s.last() == r@);
        lemma_custom_in_order(front);
        let before = super::routes::custom_in_order(front);
        let c = config_views(super::routes::custom_in_order(routes));
        if !super::routes::built_in(r.name@) {
            assert forall|i: int| 0 <= i < before.len() implies (#[trigger] before[i]).name@
                != r.name@ by {
                let x = config_views(before)[i];
                assert(config_views(before).contains(x));
                let j = choose|j: int| 0 <= j < u.len() && u[j] == x;
                assert(s[j] == x);
                assert(s[j].name != s[s.len() - 1].name);
            }
            lemma_placed(before, r);
        }
        assert forall|x: RouteConfigView| #[trigger]
            c.contains(x) <==> s.contains(x) && !super::routes::built_in(x.name) by {
            assert(s.contains(x) <==> u.contains(x) || x == r@) by {
                if s.contains(x) {
                    let i = choose|i: int| 0 <= i < s.len() && s[i] == x;
                    if i < u.len() {
                        assert(u[i] == x);
                    }
                }
                if u.contains(x) {
                    let i = choose|i: int| 0 <= i < u.len() && u[i] == x;
                    assert(s[i] == x);
                }
                if x == r@ {
                    assert(s[s.len() - 1] == x);
                }
            }
            assert(config_views(before).contains(x) <==> u.contains(x)
                && !super::routes::built_in(x.name));
        }
    } else {
        assert(config_views(super::routes::custom_in_order(routes)) =~= s);
    }
}

/// Routes in the order of their names are determined by which they are.
proof fn lemma_order_is_unique(a: Seq<RouteConfigView>, b: Seq<RouteConfigView>)
    requires
        names_ascend(a),
        names_ascend(b),
        forall|x: RouteConfigView| #[trigger] a.contains(x) <==> b.contains(x),
    ensures
        a == b,
    decreases a.len(),
{
    if a.len() == 0 {
        if b.len() > 0 {
            assert(b.contains(b[0]));
            assert(a.contains(b[0]));
        }
        assert(a =~= b);
    } else {
        let m = a.len() - 1;
        assert(a.contains(a[m]));
        assert(b.contains(a[m]));
        let n = b.len() - 1;
        let i = choose|i: int| 0 <= i < b.len() && b[i] == a[m];
        assert(b.contains(b[n]));
        assert(a.contains(b[n]));
        let j = choose|j: int| 0 <= j < a.len() && a[j] == b[n];
        if i < n {
            assert(crate::sorted::text_less(b[i].name, b[n].name));
            if j < m {
                assert(crate::sorted::text_less(a[j].name, a[m].name));
                crate::sorted::lemma_less_transitive(a[m].name, b[n].name, a[m].name);
            }
            crate::sorted::lemma_less_irreflexive(a[m].name);
        }
        assert(a[m] == b[n]);
        let front = a.drop_last();
        let other = b.drop_last();
        assert forall|x: RouteConfigView| #[trigger]
            front.contains(x) implies other.contains(x) by {
            let k = choose|k: int| 0 <= k < front.len() && front[k] == x;
            assert(a[k] == x);
            assert(crate::sorted::text_less(a[k].name, a[m].name));
            crate::sorted::lemma_less_irreflexive(a[m].name);
            assert(a.contains(x));
            let l = choose|l: int| 0 <= l < b.len() && b[l] == x;
            assert(other[l] == x);
        }
        assert forall|x: RouteConfigView| #[trigger]
            other.contains(x) implies front.contains(x) by {
            let k = choose|k: int| 0 <= k < other.len() && other[k] == x;
            assert(b[k] == x);
            assert(crate::sorted::text_less(b[k].name, b[n].name));
            crate::sorted::lemma_less_irreflexive(b[n].name);
            assert(b.contains(x));
            assert(a.contains(x));
            let l = choose|l: int| 0 <= l < a.len() && a[l] == x;
            assert(front[l] == x);
        }
        lemma_order_is_unique(front, other);
        assert(a =~= front.push(a[m]));
        assert(b =~= other.push(b[n]));
    }
}

proof fn lemma_named(routes: Seq<ProxyRouteConfig>, name: Seq<char>, from: int)
    requires
        0 <= from,
    ensures
        match super::routes::route_named(routes, name, from) {
            Some(c) => c.name@ == name && config_views(routes).contains(c@),
            None => forall|i: int|
                from <= i < routes.len() ==> #[trigger] config_views(routes)[i].name != name,
        },
    decreases routes.len() - from,
{
    if from < routes.len() {
        if routes[from].name@ == name {
            assert(config_views(routes)[from] == routes[from]@);
        } else {
            lemma_named(routes, name, from + 1);
        }
    }
}

/// A built-in route is made of what is said of it, wherever it stands.
proof fn lemma_same_vendor_route(
    name: Seq<char>,
    defaults: Seq<Seq<char>>,
    args: VendorArgs,
    a: Seq<ProxyRouteConfig>,
    b: Seq<ProxyRouteConfig>,
    env: Seq<EnvVar>,
)
    requires
        distinct_names(config_views(a)),
        forall|x: RouteConfigView| #[trigger]
            config_views(a).contains(x) <==> config_views(b).contains(x),
    ensures
        super::routes::vendor_route(
            name,
            defaults,
            args,
            super::routes::route_named(a, name, 0),
            env,
        ) == super::routes::vendor_route(
            name,
            defaults,
            args,
            super::routes::route_named(b, name, 0),
            env,
        ),
{
    let c = super::routes::route_named(a, name, 0);
    let d = super::routes::route_named(b, name, 0);
    let u = config_views(a);
    let v = config_views(b);
    lemma_named(a, name, 0);
    lemma_named(b, name, 0);
    if c is Some {
        assert(v.contains(c->0@));
        let i = choose|i: int| 0 <= i < v.len() && v[i] == c->0@;
        assert(v[i].name == name);
    }
    if d is Some {
        assert(u.contains(d->0@));
        let j = choose|j: int| 0 <= j < u.len() && u[j] == d->0@;
        assert(u[j].name == name);
    }
    if c is Some && d is Some {
        let i = choose|i: int| 0 <= i < u.len() && u[i] == c->0@;
        let j = choose|j: int| 0 <= j < u.len() && u[j] == d->0@;
        if i != j {
            assert(u[i].name != u[j].name);
        }
        assert(c->0@ == d->0@);
    }
}

proof fn lemma_same_custom_routes(
    a: Seq<ProxyRouteConfig>,
    b: Seq<ProxyRouteConfig>,
    env: Seq<EnvVar>,
)
    requires
        config_views(a) == config_views(b),
    ensures
        super::routes::custom_routes(a, env) == super::routes::custom_routes(b, env),
    decreases a.len(),
{
    assert(config_views(a).len() == a.len());
    assert(config_views(b).len() == b.len());
    if a.len() > 0 {
        assert(config_views(a.drop_last()) =~= config_views(a).drop_last());
        assert(config_views(b.drop_last()) =~= config_views(b).drop_last());
        lemma_same_custom_routes(a.drop_last(), b.drop_last(), env);
        assert(config_views(a)[a.len() - 1] == a.last()@);
        assert(config_views(b)[b.len() - 1] == b.last()@);
        assert(a.last()@ == b.last()@);
        assert(a.last()@.service_names.len() == a.last().service_names@.len());
        assert(b.last()@.service_names.len() == b.last().service_names@.len());
    }
}

/// The order of the routes in the configuration file does not matter: where no two
/// have the same name, any order of them gives the same forwarding settings or the
/// same refusal. And it does not matter to whether two have the same name.
pub proof fn law_order_of_routes_does_not_matter(
    anthropic: VendorArgs,
    openai: VendorArgs,
    cli_checkpoint: Option<Seq<u8>>,
    a: ProxyTable,
    b: ProxyTable,
    sink: Option<SinkView>,
    home: Option<Seq<u8>>,
    env: Seq<EnvVar>,
)
    requires
        config_views(a.routes).to_multiset() == config_views(b.routes).to_multiset(),
        a.queue_capacity == b.queue_capacity,
        a.timeout_ms == b.timeout_ms,
        a.retry_max == b.retry_max,
        a.checkpoint_dir == b.checkpoint_dir,
    ensures
        super::routes::duplicate_name(a.routes, 0) is None
            <==> super::routes::duplicate_name(b.routes, 0) is None,
        super::routes::duplicate_name(a.routes, 0) is None ==> super::chosen_proxy(
            anthropic,
            openai,
            cli_checkpoint,
            a,
            sink,
            home,
            env,
        ) == super::chosen_proxy(anthropic, openai, cli_checkpoint, b, sink, home, env),
{
    let u = config_views(a.routes);
    let v = config_views(b.routes);
    lemma_distinct(a.routes);
    lemma_distinct(b.routes);
    lemma_shuffled(u, v);
    lemma_shuffled(v, u);
    if distinct_names(u) {
        lemma_custom_in_order(a.routes);
        lemma_custom_in_order(b.routes);
        let c = super::routes::custom_in_order(a.routes);
        let d = super::routes::custom_in_order(b.routes);
        assert forall|x: RouteConfigView| #[trigger]
            config_views(c).contains(x) <==> config_views(d).contains(x) by {
            assert(u.contains(x) <==> v.contains(x));
        }
        lemma_order_is_unique(config_views(c), config_views(d));
        lemma_same_custom_routes(c, d, env);
        lemma_same_vendor_route(
            "anthropic"@,
            super::routes::anthropic_services(),
            anthropic,
            a.routes,
            b.routes,
            env,
        );
        lemma_same_vendor_route(
            "openai"@,
            super::routes::openai_services(),
            openai,
            a.routes,
            b.routes,
            env,
        );
    }
}

/// Shuffled routes are the same routes, and have different names if they had.
proof fn lemma_shuffled(a: Seq<RouteConfigView>, b: Seq<RouteConfigView>)
    requires
        a.to_multiset() == b.to_multiset(),
    ensures
        forall|x: RouteConfigView| #[trigger] a.contains(x) <==> b.contains(x),
        distinct_names(a) ==> distinct_names(b),
{
    a.to_multiset_ensures();
    b.to_multiset_ensures();
    assert forall|x: RouteConfigView| #[trigger] a.contains(x) <==> b.contains(x) by {
        assert(a.contains(x) <==> a.to_multiset().count(x) > 0);
        assert(b.contains(x) <==> b.to_multiset().count(x) > 0);
    }
    if distinct_names(a) {
        assert(a.no_duplicates()) by {
            assert forall|i: int, j: int|
                0 <= i < a.len() && 0 <= j < a.len() && i != j implies a[i] != a[j] by {
                assert(a[i].name != a[j].name);
            }
        }
        a.lemma_multiset_has_no_duplicates();
        b.lemma_multiset_has_no_duplicates_conv();
        assert forall|i: int, j: int|
            0 <= i < b.len() && 0 <= j < b.len() && i != j implies #[trigger] b[i].name
            != #[trigger] b[j].name by {
            assert(b.contains(b[i]) && b.contains(b[j]));
            assert(a.contains(b[i]) && a.contains(b[j]));
            let x = choose|x: int| 0 <= x < a.len() && a[x] == b[i];
            let y = choose|y: int| 0 <= y < a.len() && a[y] == b[j];
            assert(b[i] != b[j]);
            assert(a[x].name != a[y].name);
        }
    }
}

proof fn lemma_custom_names(configs: Seq<ProxyRouteConfig>, env: Seq<EnvVar>)
    ensures
        super::routes::custom_routes(configs, env) matches Ok(s) ==> {
            &&& s.len() == configs.len()
            &&& forall|i: int| 0 <= i < s.len() ==> (#[trigger] s[i]).name == configs[i].name@
        },
    decreases configs.len(),
{
    if configs.len() > 0 {
        lemma_custom_names(configs.drop_last(), env);
    }
}

/// Routes stand in one order: the built-in Anthropic route first where there is
/// one, then that of OpenAI, then the others in ascending order of their names.
pub proof fn law_routes_stand_in_order(
    anthropic: VendorArgs,
    openai: VendorArgs,
    routes: Seq<ProxyRouteConfig>,
    env: Seq<EnvVar>,
    i: int,
    j: int,
)
    ensures
        super::routes::all_routes(anthropic, openai, routes, env) matches Ok(s) ==> (0 <= i < j
            < s.len() ==> goes_before(s[i].name, s[j].name)),
{
    if super::routes::all_routes(anthropic, openai, routes, env) is Ok {
        let s = super::routes::all_routes(anthropic, openai, routes, env)->Ok_0;
        lemma_distinct(routes);
        lemma_custom_in_order(routes);
        let c = super::routes::custom_in_order(routes);
        lemma_custom_names(c, env);
        let others = super::routes::custom_routes(c, env)->Ok_0;
        let built = s.len() - others.len();
        reveal_strlit("anthropic");
        reveal_strlit("openai");
        assert("anthropic"@.len() != "openai"@.len());
        if 0 <= i < j < s.len() {
            if j >= built {
                let y = config_views(c)[j - built];
                assert(config_views(c).contains(y));
                assert(s[j].name == y.name);
                if i >= built {
                    let x = config_views(c)[i - built];
                    assert(config_views(c).contains(x));
                    assert(s[i].name == x.name);
                    assert(crate::sorted::text_less(x.name, y.name));
                }
            }
        }
    }
}

} // verus!
