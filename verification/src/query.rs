//! The query that asks the CrowdSec API for decisions.

use vstd::prelude::*;

use crate::text;

verus! {

/// One query parameter for each value.
pub open spec fn params_of(prefix: Seq<char>, values: Seq<Seq<char>>) -> Seq<Seq<char>> {
    Seq::new(values.len(), |i: int| prefix + values[i])
}

/// The parameters of a query, in their order.
pub open spec fn query_params(
    is_startup: bool,
    scopes: Seq<Seq<char>>,
    origins: Seq<Seq<char>>,
    scenarios_containing: Seq<Seq<char>>,
    scenarios_not_containing: Seq<Seq<char>>,
) -> Seq<Seq<char>> {
    let startup = if is_startup {
        seq!["startup=true"@]
    } else {
        Seq::empty()
    };
    startup + params_of("scopes="@, scopes) + params_of("origins="@, origins) + params_of(
        "scenarios_containing="@,
        scenarios_containing,
    ) + params_of("scenarios_not_containing="@, scenarios_not_containing)
}

/// A query out of its parameters: nothing where there are none.
pub open spec fn query_text(params: Seq<Seq<char>>) -> Seq<char> {
    if params.len() == 0 {
        Seq::empty()
    } else {
        "?"@ + text::join(params, "&"@)
    }
}

fn push_params(params: &mut Vec<String>, prefix: &str, values: &[String])
    ensures
        text::strings(final(params)@) == text::strings(old(params)@) + params_of(
            prefix@,
            text::strings(values@),
        ),
{
    let ghost added = params_of(prefix@, text::strings(values@));
    let ghost before = text::strings(params@);
    for i in 0..values.len()
        invariant
            added == params_of(prefix@, text::strings(values@)),
            text::strings(params@) == before + added.take(i as int),
    {
        let mut param: String = prefix.to_owned();
        param.append(values[i].as_str());
        let ghost held = params@;
        params.push(param);
        assert(text::strings(params@) =~= text::strings(held).push(added[i as int]));
        assert(text::strings(params@) =~= before + added.take(i + 1));
    }
    assert(added.take(values@.len() as int) =~= added);
}

/// The query for decisions: `?` and the parameters with `&` between them, or nothing where no
/// parameter is asked for. Every value gets a parameter of its own.
pub fn build_query_params(
    is_startup: bool,
    scopes: &[String],
    origins: &[String],
    scenarios_containing: &[String],
    scenarios_not_containing: &[String],
) -> (r: String)
    ensures
        r@ == query_text(
            query_params(
                is_startup,
                text::strings(scopes@),
                text::strings(origins@),
                text::strings(scenarios_containing@),
                text::strings(scenarios_not_containing@),
            ),
        ),
{
    let mut params: Vec<String> = Vec::new();
    if is_startup {
        params.push("startup=true".to_owned());
        assert(text::strings(params@) =~= seq!["startup=true"@]);
    } else {
        assert(text::strings(params@) =~= Seq::<Seq<char>>::empty());
    }
    push_params(&mut params, "scopes=", scopes);
    push_params(&mut params, "origins=", origins);
    push_params(&mut params, "scenarios_containing=", scenarios_containing);
    push_params(&mut params, "scenarios_not_containing=", scenarios_not_containing);
    assert(text::strings(params@).len() == params@.len());
    if params.len() == 0 {
        String::new()
    } else {
        let mut query: String = "?".to_owned();
        query.append(text::join_strings(&params, "&").as_str());
        query
    }
}

/// Each list of values goes into the query under its own name, in its own order and with one
/// parameter for each value, and the mark of the first request stands before them exactly where it
/// is asked for.
pub proof fn law_values_stand_under_their_names(
    is_startup: bool,
    scopes: Seq<Seq<char>>,
    origins: Seq<Seq<char>>,
    scenarios_containing: Seq<Seq<char>>,
    scenarios_not_containing: Seq<Seq<char>>,
)
    ensures
        ({
            let params = query_params(
                is_startup,
                scopes,
                origins,
                scenarios_containing,
                scenarios_not_containing,
            );
            let a: int = if is_startup { 1 } else { 0 };
            let b = a + scopes.len();
            let c = b + origins.len();
            let d = c + scenarios_containing.len();
            &&& params.len() == d + scenarios_not_containing.len()
            &&& is_startup ==> params[0] == "startup=true"@
            &&& forall|i: int|
                0 <= i < scopes.len() ==> params[a + i] == "scopes="@ + #[trigger] scopes[i]
            &&& forall|i: int|
                0 <= i < origins.len() ==> params[b + i] == "origins="@ + #[trigger] origins[i]
            &&& forall|i: int|
                0 <= i < scenarios_containing.len() ==> params[c + i] == "scenarios_containing="@
                    + #[trigger] scenarios_containing[i]
            &&& forall|i: int|
                0 <= i < scenarios_not_containing.len() ==> params[d + i]
                    == "scenarios_not_containing="@ + #[trigger] scenarios_not_containing[i]
        }),
{
}

proof fn lemma_params_of_has(prefix: Seq<char>, values: Seq<Seq<char>>, v: Seq<char>)
    ensures
        params_of(prefix, values).contains(prefix + v) <==> values.contains(v),
{
    let params = params_of(prefix, values);
    if values.contains(v) {
        let i = choose|i: int| 0 <= i < values.len() && values[i] == v;
        assert(params[i] == prefix + v);
    }
    if params.contains(prefix + v) {
        let i = choose|i: int| 0 <= i < params.len() && params[i] == prefix + v;
        assert(params[i] == prefix + values[i]);
        assert((prefix + values[i]).skip(prefix.len() as int) =~= values[i]);
        assert((prefix + v).skip(prefix.len() as int) =~= v);
        assert(values[i] == v);
    }
}

/// A text that differs from `prefix` within its length is no parameter under that prefix.
proof fn lemma_params_of_lacks(prefix: Seq<char>, values: Seq<Seq<char>>, p: Seq<char>, i: int)
    requires
        0 <= i < prefix.len(),
        i < p.len(),
        p[i] != prefix[i],
    ensures
        !params_of(prefix, values).contains(p),
{
    let params = params_of(prefix, values);
    if params.contains(p) {
        let k = choose|k: int| 0 <= k < params.len() && params[k] == p;
        assert((prefix + values[k])[i] == prefix[i]);
    }
}

proof fn lemma_in_one_of(
    a: Seq<Seq<char>>,
    b: Seq<Seq<char>>,
    c: Seq<Seq<char>>,
    d: Seq<Seq<char>>,
    e: Seq<Seq<char>>,
    p: Seq<char>,
)
    ensures
        (a + b + c + d + e).contains(p) <==> a.contains(p) || b.contains(p) || c.contains(p)
            || d.contains(p) || e.contains(p),
{
    let all = a + b + c + d + e;
    if a.contains(p) {
        let i = choose|i: int| 0 <= i < a.len() && a[i] == p;
        assert(all[i] == p);
    }
    if b.contains(p) {
        let i = choose|i: int| 0 <= i < b.len() && b[i] == p;
        assert(all[a.len() + i] == p);
    }
    if c.contains(p) {
        let i = choose|i: int| 0 <= i < c.len() && c[i] == p;
        assert(all[a.len() + b.len() + i] == p);
    }
    if d.contains(p) {
        let i = choose|i: int| 0 <= i < d.len() && d[i] == p;
        assert(all[a.len() + b.len() + c.len() + i] == p);
    }
    if e.contains(p) {
        let i = choose|i: int| 0 <= i < e.len() && e[i] == p;
        assert(all[a.len() + b.len() + c.len() + d.len() + i] == p);
    }
}

/// The query asks for a value under a name exactly where the value is in the list of that name, and
/// for everything exactly at the first request: no list fills the parameters of another.
pub proof fn law_query_asks_for_the_lists(
    is_startup: bool,
    scopes: Seq<Seq<char>>,
    origins: Seq<Seq<char>>,
    scenarios_containing: Seq<Seq<char>>,
    scenarios_not_containing: Seq<Seq<char>>,
    v: Seq<char>,
)
    ensures
        ({
            let params = query_params(
                is_startup,
                scopes,
                origins,
                scenarios_containing,
                scenarios_not_containing,
            );
            &&& params.contains("startup=true"@) <==> is_startup
            &&& params.contains("scopes="@ + v) <==> scopes.contains(v)
            &&& params.contains("origins="@ + v) <==> origins.contains(v)
            &&& params.contains("scenarios_containing="@ + v) <==> scenarios_containing.contains(v)
            &&& params.contains("scenarios_not_containing="@ + v)
                <==> scenarios_not_containing.contains(v)
        }),
{
    reveal_strlit("startup=true");
    reveal_strlit("scopes=");
    reveal_strlit("origins=");
    reveal_strlit("scenarios_containing=");
    reveal_strlit("scenarios_not_containing=");
    let startup = if is_startup {
        seq!["startup=true"@]
    } else {
        Seq::empty()
    };
    let a = params_of("scopes="@, scopes);
    let b = params_of("origins="@, origins);
    let c = params_of("scenarios_containing="@, scenarios_containing);
    let d = params_of("scenarios_not_containing="@, scenarios_not_containing);
    let s = "startup=true"@;
    let pa = "scopes="@ + v;
    let pb = "origins="@ + v;
    let pc = "scenarios_containing="@ + v;
    let pd = "scenarios_not_containing="@ + v;
    lemma_in_one_of(startup, a, b, c, d, s);
    lemma_in_one_of(startup, a, b, c, d, pa);
    lemma_in_one_of(startup, a, b, c, d, pb);
    lemma_in_one_of(startup, a, b, c, d, pc);
    lemma_in_one_of(startup, a, b, c, d, pd);
    lemma_params_of_has("scopes="@, scopes, v);
    lemma_params_of_has("origins="@, origins, v);
    lemma_params_of_has("scenarios_containing="@, scenarios_containing, v);
    lemma_params_of_has("scenarios_not_containing="@, scenarios_not_containing, v);
    // "scopes=", "origins=", "startup=true" and the names of the scenarios differ in the first two
    // letters, and the latter two from each other in the eleventh.
    lemma_params_of_lacks("scopes="@, scopes, s, 1);
    lemma_params_of_lacks("origins="@, origins, s, 0);
    lemma_params_of_lacks("scenarios_containing="@, scenarios_containing, s, 1);
    lemma_params_of_lacks("scenarios_not_containing="@, scenarios_not_containing, s, 1);
    lemma_params_of_lacks("origins="@, origins, pa, 0);
    lemma_params_of_lacks("scenarios_containing="@, scenarios_containing, pa, 2);
    lemma_params_of_lacks("scenarios_not_containing="@, scenarios_not_containing, pa, 2);
    lemma_params_of_lacks("scopes="@, scopes, pb, 0);
    lemma_params_of_lacks("scenarios_containing="@, scenarios_containing, pb, 0);
    lemma_params_of_lacks("scenarios_not_containing="@, scenarios_not_containing, pb, 0);
    lemma_params_of_lacks("scopes="@, scopes, pc, 2);
    lemma_params_of_lacks("origins="@, origins, pc, 0);
    lemma_params_of_lacks("scenarios_not_containing="@, scenarios_not_containing, pc, 10);
    lemma_params_of_lacks("scopes="@, scopes, pd, 2);
    lemma_params_of_lacks("origins="@, origins, pd, 0);
    lemma_params_of_lacks("scenarios_containing="@, scenarios_containing, pd, 10);
    assert(s[1] != pa[1]);
    assert(s[0] != pb[0]);
    assert(s[1] != pc[1]);
    assert(s[1] != pd[1]);
    if is_startup {
        assert(startup[0] == s);
    }
}

/// A query without parameters is nothing, the first parameter stands behind `?`, and each further
/// one behind `&`.
pub proof fn law_query_grows_by_parameters(params: Seq<Seq<char>>, p: Seq<char>)
    ensures
        query_text(Seq::empty()).len() == 0,
        params.len() == 0 ==> query_text(params.push(p)) == "?"@ + p,
        params.len() > 0 ==> query_text(params.push(p)) == query_text(params) + "&"@ + p,
{
    assert(params.push(p).drop_last() =~= params);
    if params.len() > 0 {
        assert(query_text(params.push(p)) =~= query_text(params) + "&"@ + p);
    }
}

} // verus!
