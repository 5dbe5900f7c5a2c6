//! SQL text construction against the fixed schema
//! `nodes(id, label, properties)` / `edges(id, src_id, dst_id, type, properties)`.
//!
//! Every emitted statement is defined by a spec function as a concatenation
//! of character sequences; each executable builder is proved to return
//! exactly that concatenation.  Property maps are encoded as JSON objects in
//! insertion order: keys and string values are escaped for embedded double
//! quotes and backslashes, numeric values are emitted unquoted, and the
//! surrounding SQL string literal doubles any embedded single quote.

use vstd::prelude::*;

use crate::ast::{NodePat, NodePatV, Prop, PropV, PropVal, PropValV, RelPat, RelPatV};

verus! {

/// A single quote is doubled inside a SQL string literal.
pub open spec fn sql_escape_char(c: char) -> Seq<char> {
    if c == '\'' {
        seq!['\'', '\'']
    } else {
        seq![c]
    }
}

/// The body of a SQL string literal for `s`.
pub open spec fn sql_escape(s: Seq<char>) -> Seq<char>
    decreases s.len(),
{
    if s.len() == 0 {
        Seq::empty()
    } else {
        sql_escape(s.drop_last()) + sql_escape_char(s.last())
    }
}

/// A SQL string literal: `'...'` with embedded single quotes doubled.
pub open spec fn sql_str(s: Seq<char>) -> Seq<char> {
    seq!['\''] + sql_escape(s) + seq!['\'']
}

/// Double quotes and backslashes carry a backslash escape in JSON text.
pub open spec fn json_escape_char(c: char) -> Seq<char> {
    if c == '"' || c == '\\' {
        seq!['\\', c]
    } else {
        seq![c]
    }
}

/// The body of a JSON string for `s`.
pub open spec fn json_escape(s: Seq<char>) -> Seq<char>
    decreases s.len(),
{
    if s.len() == 0 {
        Seq::empty()
    } else {
        json_escape(s.drop_last()) + json_escape_char(s.last())
    }
}

/// A JSON string: `"..."` with `"` and `\` escaped.
pub open spec fn json_str(s: Seq<char>) -> Seq<char> {
    seq!['"'] + json_escape(s) + seq!['"']
}

/// A JSON value: string values are quoted and escaped, numeric values are
/// emitted unquoted, exactly as written in the source.
pub open spec fn json_val(v: PropValV) -> Seq<char> {
    match v {
        PropValV::Str(t) => json_str(t),
        PropValV::Num(t) => t,
    }
}

/// One JSON object member, `"key":value`.
pub open spec fn json_member(p: PropV) -> Seq<char> {
    json_str(p.key) + seq![':'] + json_val(p.val)
}

/// The members of a JSON object, comma-separated, in insertion order.
pub open spec fn json_members(ps: Seq<PropV>) -> Seq<char>
    decreases ps.len(),
{
    if ps.len() == 0 {
        Seq::empty()
    } else if ps.len() == 1 {
        json_member(ps[0])
    } else {
        json_members(ps.drop_last()) + seq![','] + json_member(ps.last())
    }
}

/// The JSON object encoding a property map, `{...}`.
pub open spec fn json_obj(ps: Seq<PropV>) -> Seq<char> {
    seq!['{'] + json_members(ps) + seq!['}']
}

/// A property value as a SQL comparison operand.
pub open spec fn val_sql(v: PropValV) -> Seq<char> {
    match v {
        PropValV::Str(t) => sql_str(t),
        PropValV::Num(t) => t,
    }
}

/// One property equality predicate; `prefix` is the column prefix, either
/// an alias followed by a dot or nothing.
pub open spec fn prop_pred(prefix: Seq<char>, p: PropV) -> Seq<char> {
    "JSON_EXTRACT("@ + prefix + "properties,'$."@ + p.key + "') = "@ + val_sql(p.val)
}

/// The property predicates of a map, in insertion order.
pub open spec fn props_preds(prefix: Seq<char>, ps: Seq<PropV>) -> Seq<Seq<char>>
    decreases ps.len(),
{
    if ps.len() == 0 {
        Seq::empty()
    } else {
        props_preds(prefix, ps.drop_last()) + seq![prop_pred(prefix, ps.last())]
    }
}

/// The label predicate of a node pattern, if it has a label.
pub open spec fn label_part(prefix: Seq<char>, label: Option<Seq<char>>) -> Seq<Seq<char>> {
    match label {
        Some(l) => seq![prefix + "label = "@ + sql_str(l)],
        None => Seq::empty(),
    }
}

/// All predicates of a node pattern: the label one first, then the property
/// ones in insertion order.
pub open spec fn node_preds(prefix: Seq<char>, n: NodePatV) -> Seq<Seq<char>> {
    label_part(prefix, n.label) + props_preds(prefix, n.props)
}

/// Non-empty items joined by `sep`.
pub open spec fn join_with(items: Seq<Seq<char>>, sep: Seq<char>) -> Seq<char>
    decreases items.len(),
{
    if items.len() == 0 {
        Seq::empty()
    } else if items.len() == 1 {
        items[0]
    } else {
        join_with(items.drop_last(), sep) + sep + items.last()
    }
}

/// A `WHERE` clause over `AND`-joined predicates; nothing when there is no
/// predicate.
pub open spec fn where_clause(preds: Seq<Seq<char>>) -> Seq<char> {
    if preds.len() == 0 {
        Seq::empty()
    } else {
        " WHERE "@ + join_with(preds, " AND "@)
    }
}

/// The select list of a `RETURN`: each variable as `v.*`, in return order.
pub open spec fn star_list(vars: Seq<Seq<char>>) -> Seq<char>
    decreases vars.len(),
{
    if vars.len() == 0 {
        Seq::empty()
    } else if vars.len() == 1 {
        vars[0] + ".*"@
    } else {
        star_list(vars.drop_last()) + ", "@ + vars.last() + ".*"@
    }
}

/// The text of an optional name, empty when absent.
pub open spec fn opt_text(o: Option<Seq<char>>) -> Seq<char> {
    match o {
        Some(t) => t,
        None => Seq::empty(),
    }
}

/// `CREATE (n[:Label] [{props}])`:
/// `INSERT INTO nodes (label, properties) VALUES ('Label', '{json}');`
pub open spec fn insert_node_sql(n: NodePatV) -> Seq<char> {
    "INSERT INTO nodes (label, properties) VALUES ("@ + sql_str(opt_text(n.label)) + ", "@
        + sql_str(json_obj(n.props)) + ");"@
}

/// `MATCH (n ...) RETURN n`:
/// `SELECT n.* FROM nodes n [WHERE ...];`
pub open spec fn node_select_sql(vars: Seq<Seq<char>>, alias: Seq<char>, n: NodePatV) -> Seq<
    char,
> {
    "SELECT "@ + star_list(vars) + " FROM nodes "@ + alias + where_clause(
        node_preds(alias + "."@, n),
    ) + ";"@
}

/// The predicates of a relationship match: the type filter first, then the
/// source node's predicates, then the destination node's.
pub open spec fn rel_preds(
    a: Seq<char>,
    r: Seq<char>,
    b: Seq<char>,
    rel: RelPatV,
    src: NodePatV,
    dst: NodePatV,
) -> Seq<Seq<char>> {
    (match rel.rel_type {
        Some(t) => seq![r + ".type = "@ + sql_str(t)],
        None => Seq::empty(),
    }) + node_preds(a + "."@, src) + node_preds(b + "."@, dst)
}

/// `MATCH (a)-[r:TYPE]->(b) RETURN ...`: a select over exactly two joins,
/// with the `WHERE` clause omitted when there is no predicate at all.
pub open spec fn rel_select_sql(
    vars: Seq<Seq<char>>,
    a: Seq<char>,
    r: Seq<char>,
    b: Seq<char>,
    rel: RelPatV,
    src: NodePatV,
    dst: NodePatV,
) -> Seq<char> {
    "SELECT "@ + star_list(vars) + " FROM nodes "@ + a + " JOIN edges "@ + r + " ON "@ + a
        + ".id = "@ + r + ".src_id JOIN nodes "@ + b + " ON "@ + r + ".dst_id = "@ + b + ".id"@
        + where_clause(rel_preds(a, r, b, rel, src, dst)) + ";"@
}

/// `MATCH (pattern) DELETE v` for a node variable:
/// `DELETE FROM nodes [WHERE ...];` with the pattern's own predicates.
pub open spec fn node_delete_sql(n: NodePatV) -> Seq<char> {
    "DELETE FROM nodes"@ + where_clause(node_preds(Seq::empty(), n)) + ";"@
}

/// The edge-cleanup statement of `DETACH DELETE`: deletes every edge whose
/// source or destination matches the node predicate.
pub open spec fn edge_cleanup_sql(n: NodePatV) -> Seq<char> {
    "DELETE FROM edges WHERE src_id IN (SELECT id FROM nodes"@ + where_clause(
        node_preds(Seq::empty(), n),
    ) + ") OR dst_id IN (SELECT id FROM nodes"@ + where_clause(node_preds(Seq::empty(), n))
        + ");"@
}

/// `MATCH ()-[r ...]->() DELETE r`:
/// `DELETE FROM edges [WHERE type = '...'];`
pub open spec fn edge_delete_sql(rel: RelPatV) -> Seq<char> {
    "DELETE FROM edges"@ + where_clause(
        match rel.rel_type {
            Some(t) => seq!["type = "@ + sql_str(t)],
            None => Seq::empty(),
        },
    ) + ";"@
}

/// `MATCH (a),(b) CREATE (a)-[:TYPE]->(b)`: one relationship per matching
/// pair, via `INSERT ... SELECT` joining both endpoint predicates.
pub open spec fn insert_edge_sql(
    a: Seq<char>,
    src: NodePatV,
    b: Seq<char>,
    dst: NodePatV,
    rel_type: Option<Seq<char>>,
) -> Seq<char> {
    "INSERT INTO edges (src_id, dst_id, type) SELECT "@ + a + ".id, "@ + b + ".id, "@ + sql_str(
        opt_text(rel_type),
    ) + " FROM nodes "@ + a + ", nodes "@ + b + where_clause(
        node_preds(a + "."@, src) + node_preds(b + "."@, dst),
    ) + ";"@
}

/// Relies on `String::push`: appends exactly one character to the string.
#[verifier::external_body]
pub(crate) fn push_char(out: &mut String, c: char)
    ensures
        final(out)@ == old(out)@ + seq![c],
{
    out.push(c);
}

proof fn lemma_take_snoc<A>(s: Seq<A>, k: int)
    requires
        0 <= k < s.len(),
    ensures
        s.take(k + 1).drop_last() =~= s.take(k),
        s.take(k + 1).last() == s[k],
        s.take(k + 1).len() == k + 1,
{
}

/// Appends the SQL-escaped body of `s`.
fn append_sql_escaped(out: &mut String, s: &String)
    ensures
        final(out)@ == old(out)@ + sql_escape(s@),
{
    let ghost pre = out@;
    let n = s.as_str().unicode_len();
    let mut i: usize = 0;
    while i < n
        invariant
            i <= n,
            n == s@.len(),
            out@ == pre + sql_escape(s@.take(i as int)),
        decreases n - i,
    {
        let c = s.as_str().get_char(i);
        proof {
            lemma_take_snoc(s@, i as int);
        }
        if c == '\'' {
            push_char(out, '\'');
            push_char(out, '\'');
        } else {
            push_char(out, c);
        }
        proof {
            assert(out@ =~= pre + sql_escape(s@.take(i as int + 1)));
        }
        i = i + 1;
    }
    proof {
        assert(s@.take(n as int) =~= s@);
    }
}

/// Appends the JSON-escaped body of `s`.
fn append_json_escaped(out: &mut String, s: &String)
    ensures
        final(out)@ == old(out)@ + json_escape(s@),
{
    let ghost pre = out@;
    let n = s.as_str().unicode_len();
    let mut i: usize = 0;
    while i < n
        invariant
            i <= n,
            n == s@.len(),
            out@ == pre + json_escape(s@.take(i as int)),
        decreases n - i,
    {
        let c = s.as_str().get_char(i);
        proof {
            lemma_take_snoc(s@, i as int);
        }
        if c == '"' || c == '\\' {
            push_char(out, '\\');
            push_char(out, c);
        } else {
            push_char(out, c);
        }
        proof {
            assert(out@ =~= pre + json_escape(s@.take(i as int + 1)));
        }
        i = i + 1;
    }
    proof {
        assert(s@.take(n as int) =~= s@);
    }
}

/// Appends the SQL string literal for `s`.
fn append_sql_str(out: &mut String, s: &String)
    ensures
        final(out)@ == old(out)@ + sql_str(s@),
{
    let ghost pre = out@;
    push_char(out, '\'');
    append_sql_escaped(out, s);
    push_char(out, '\'');
    proof {
        assert(out@ =~= pre + sql_str(s@));
    }
}

/// Appends the SQL string literal of an optional name (empty when absent).
fn append_sql_str_opt(out: &mut String, o: &Option<String>)
    ensures
        final(out)@ == old(out)@ + sql_str(opt_text(o.deep_view())),
{
    let ghost pre = out@;
    match o {
        Some(s) => {
            append_sql_str(out, s);
        },
        None => {
            push_char(out, '\'');
            push_char(out, '\'');
            proof {
                assert(sql_escape(Seq::<char>::empty()) =~= Seq::<char>::empty());
                assert(out@ =~= pre + sql_str(opt_text(o.deep_view())));
            }
        },
    }
}

/// Appends the JSON string for `s`.
fn append_json_str(out: &mut String, s: &String)
    ensures
        final(out)@ == old(out)@ + json_str(s@),
{
    let ghost pre = out@;
    push_char(out, '"');
    append_json_escaped(out, s);
    push_char(out, '"');
    proof {
        assert(out@ =~= pre + json_str(s@));
    }
}

/// Appends the JSON value for `v`.
fn append_json_val(out: &mut String, v: &PropVal)
    ensures
        final(out)@ == old(out)@ + json_val(v@),
{
    match v {
        PropVal::Str(t) => {
            append_json_str(out, t);
        },
        PropVal::Num(t) => {
            out.append(t.as_str());
        },
    }
}

/// Appends the JSON object for a property map, in insertion order.
fn append_json_obj(out: &mut String, ps: &Vec<Prop>)
    ensures
        final(out)@ == old(out)@ + json_obj(ps.deep_view()),
{
    let ghost pre = out@;
    let ghost pdv = ps.deep_view();
    push_char(out, '{');
    let mut k: usize = 0;
    while k < ps.len()
        invariant
            k <= ps.len(),
            pdv == ps.deep_view(),
            out@ == pre + seq!['{'] + json_members(pdv.take(k as int)),
        decreases ps.len() - k,
    {
        let ghost mid = out@;
        proof {
            lemma_take_snoc(pdv, k as int);
        }
        if k > 0 {
            push_char(out, ',');
        }
        append_json_str(out, &ps[k].key);
        push_char(out, ':');
        append_json_val(out, &ps[k].val);
        proof {
            assert(out@ =~= pre + seq!['{'] + json_members(pdv.take(k as int + 1)));
        }
        k = k + 1;
    }
    push_char(out, '}');
    proof {
        assert(pdv.take(ps.len() as int) =~= pdv);
        assert(out@ =~= pre + json_obj(pdv));
    }
}

/// Appends the comparison operand for a property value.
fn append_val_sql(out: &mut String, v: &PropVal)
    ensures
        final(out)@ == old(out)@ + val_sql(v@),
{
    match v {
        PropVal::Str(t) => {
            append_sql_str(out, t);
        },
        PropVal::Num(t) => {
            out.append(t.as_str());
        },
    }
}

/// Builds one property equality predicate.
fn mk_prop_pred(prefix: &String, p: &Prop) -> (r: String)
    ensures
        r@ == prop_pred(prefix@, p@),
{
    let mut out = String::new();
    out.append("JSON_EXTRACT(");
    out.append(prefix.as_str());
    out.append("properties,'$.");
    out.append(p.key.as_str());
    out.append("') = ");
    append_val_sql(&mut out, &p.val);
    proof {
        assert(out@ =~= prop_pred(prefix@, p@));
    }
    out
}

/// Builds all predicates of a node pattern: label first, then properties.
fn mk_node_preds(prefix: &String, n: &NodePat) -> (r: Vec<String>)
    ensures
        r.deep_view() == node_preds(prefix@, n.deep_view()),
{
    let ghost pdv = n.props.deep_view();
    let mut out: Vec<String> = Vec::new();
    proof {
        assert(out.deep_view() =~= Seq::<Seq<char>>::empty());
    }
    match &n.label {
        Some(l) => {
            let mut pred = String::new();
            pred.append(prefix.as_str());
            pred.append("label = ");
            append_sql_str(&mut pred, l);
            out.push(pred);
            proof {
                assert(out.deep_view() =~= label_part(prefix@, n.deep_view().label));
            }
        },
        None => {
            proof {
                assert(out.deep_view() =~= label_part(prefix@, n.deep_view().label));
            }
        },
    }
    let ghost lp = out.deep_view();
    let mut k: usize = 0;
    while k < n.props.len()
        invariant
            k <= n.props.len(),
            pdv == n.props.deep_view(),
            lp == label_part(prefix@, n.deep_view().label),
            out.deep_view() == lp + props_preds(prefix@, pdv.take(k as int)),
        decreases n.props.len() - k,
    {
        let ghost prev = out.deep_view();
        proof {
            lemma_take_snoc(pdv, k as int);
        }
        let pred = mk_prop_pred(prefix, &n.props[k]);
        out.push(pred);
        proof {
            assert(out.deep_view() =~= prev.push(prop_pred(prefix@, pdv[k as int])));
            assert(pdv.take(k as int + 1).drop_last() == pdv.take(k as int));
            assert(props_preds(prefix@, pdv.take(k as int + 1)) == props_preds(
                prefix@,
                pdv.take(k as int),
            ) + seq![prop_pred(prefix@, pdv[k as int])]);
            assert(out.deep_view() =~= lp + props_preds(prefix@, pdv.take(k as int + 1)));
        }
        k = k + 1;
    }
    proof {
        assert(pdv.take(n.props.len() as int) =~= pdv);
    }
    out
}

/// Appends the `WHERE` clause over `AND`-joined predicates; nothing when
/// there is none.
fn append_where(out: &mut String, preds: &Vec<String>)
    ensures
        final(out)@ == old(out)@ + where_clause(preds.deep_view()),
{
    let ghost pre = out@;
    let ghost pdv = preds.deep_view();
    if preds.len() == 0 {
        proof {
            assert(out@ =~= pre + where_clause(pdv));
        }
        return ;
    }
    out.append(" WHERE ");
    let mut k: usize = 0;
    while k < preds.len()
        invariant
            k <= preds.len(),
            preds.len() > 0,
            pdv == preds.deep_view(),
            out@ == pre + " WHERE "@ + join_with(pdv.take(k as int), " AND "@),
        decreases preds.len() - k,
    {
        proof {
            lemma_take_snoc(pdv, k as int);
        }
        if k > 0 {
            out.append(" AND ");
        }
        out.append(preds[k].as_str());
        proof {
            assert(out@ =~= pre + " WHERE "@ + join_with(pdv.take(k as int + 1), " AND "@));
        }
        k = k + 1;
    }
    proof {
        assert(pdv.take(preds.len() as int) =~= pdv);
        assert(out@ =~= pre + where_clause(pdv));
    }
}

/// Appends the select list of a `RETURN`: each variable as `v.*`.
fn append_star_list(out: &mut String, vars: &Vec<String>)
    ensures
        final(out)@ == old(out)@ + star_list(vars.deep_view()),
{
    let ghost pre = out@;
    let ghost vdv = vars.deep_view();
    let mut k: usize = 0;
    while k < vars.len()
        invariant
            k <= vars.len(),
            vdv == vars.deep_view(),
            out@ == pre + star_list(vdv.take(k as int)),
        decreases vars.len() - k,
    {
        proof {
            lemma_take_snoc(vdv, k as int);
        }
        if k > 0 {
            out.append(", ");
        }
        out.append(vars[k].as_str());
        out.append(".*");
        proof {
            assert(out@ =~= pre + star_list(vdv.take(k as int + 1)));
        }
        k = k + 1;
    }
    proof {
        assert(vdv.take(vars.len() as int) =~= vdv);
    }
}

/// The alias followed by a dot, as a predicate column prefix.
fn mk_alias_prefix(alias: &String) -> (r: String)
    ensures
        r@ == alias@ + "."@,
{
    let mut p = alias.clone();
    p.append(".");
    p
}

/// Builds the `INSERT INTO nodes` statement of a node `CREATE`.
pub fn mk_insert_node(n: &NodePat) -> (r: String)
    ensures
        r@ == insert_node_sql(n.deep_view()),
{
    let mut out = String::new();
    out.append("INSERT INTO nodes (label, properties) VALUES (");
    append_sql_str_opt(&mut out, &n.label);
    out.append(", ");
    let mut json = String::new();
    append_json_obj(&mut json, &n.props);
    append_sql_str(&mut out, &json);
    out.append(");");
    proof {
        assert(out@ =~= insert_node_sql(n.deep_view()));
    }
    out
}

/// Builds the `SELECT` of a node-pattern `RETURN`.
pub fn mk_node_select(vars: &Vec<String>, alias: &String, n: &NodePat) -> (r: String)
    ensures
        r@ == node_select_sql(vars.deep_view(), alias@, n.deep_view()),
{
    let mut out = String::new();
    out.append("SELECT ");
    append_star_list(&mut out, vars);
    out.append(" FROM nodes ");
    out.append(alias.as_str());
    let prefix = mk_alias_prefix(alias);
    let preds = mk_node_preds(&prefix, n);
    append_where(&mut out, &preds);
    out.append(";");
    proof {
        assert(out@ =~= node_select_sql(vars.deep_view(), alias@, n.deep_view()));
    }
    out
}

/// Builds the two-join `SELECT` of a relationship-pattern `RETURN`.
pub fn mk_rel_select(
    vars: &Vec<String>,
    a: &String,
    r_alias: &String,
    b: &String,
    rel: &RelPat,
    src: &NodePat,
    dst: &NodePat,
) -> (r: String)
    ensures
        r@ == rel_select_sql(
            vars.deep_view(),
            a@,
            r_alias@,
            b@,
            rel.deep_view(),
            src.deep_view(),
            dst.deep_view(),
        ),
{
    let mut out = String::new();
    out.append("SELECT ");
    append_star_list(&mut out, vars);
    out.append(" FROM nodes ");
    out.append(a.as_str());
    out.append(" JOIN edges ");
    out.append(r_alias.as_str());
    out.append(" ON ");
    out.append(a.as_str());
    out.append(".id = ");
    out.append(r_alias.as_str());
    out.append(".src_id JOIN nodes ");
    out.append(b.as_str());
    out.append(" ON ");
    out.append(r_alias.as_str());
    out.append(".dst_id = ");
    out.append(b.as_str());
    out.append(".id");
    let mut preds: Vec<String> = Vec::new();
    proof {
        assert(preds.deep_view() =~= Seq::<Seq<char>>::empty());
    }
    match &rel.rel_type {
        Some(t) => {
            let mut tp = r_alias.clone();
            tp.append(".type = ");
            append_sql_str(&mut tp, t);
            preds.push(tp);
            proof {
                assert(preds.deep_view() =~= seq![r_alias@ + ".type = "@ + sql_str(t@)]);
            }
        },
        None => {},
    }
    let ghost tpart = preds.deep_view();
    let pa = mk_alias_prefix(a);
    let pa_preds = mk_node_preds(&pa, src);
    let mut k: usize = 0;
    while k < pa_preds.len()
        invariant
            k <= pa_preds.len(),
            preds.deep_view() =~= tpart + pa_preds.deep_view().take(k as int),
            pa_preds.deep_view() == node_preds(a@ + "."@, src.deep_view()),
        decreases pa_preds.len() - k,
    {
        let ghost prev = preds.deep_view();
        proof {
            lemma_take_snoc(pa_preds.deep_view(), k as int);
        }
        preds.push(pa_preds[k].clone());
        proof {
            assert(preds.deep_view() =~= prev.push(pa_preds.deep_view()[k as int]));
            assert(preds.deep_view() =~= tpart + pa_preds.deep_view().take(k as int + 1));
        }
        k = k + 1;
    }
    proof {
        assert(pa_preds.deep_view().take(pa_preds.len() as int) =~= pa_preds.deep_view());
    }
    let ghost apart = preds.deep_view();
    let pb = mk_alias_prefix(b);
    let pb_preds = mk_node_preds(&pb, dst);
    let mut k2: usize = 0;
    while k2 < pb_preds.len()
        invariant
            k2 <= pb_preds.len(),
            preds.deep_view() =~= apart + pb_preds.deep_view().take(k2 as int),
            pb_preds.deep_view() == node_preds(b@ + "."@, dst.deep_view()),
        decreases pb_preds.len() - k2,
    {
        let ghost prev = preds.deep_view();
        proof {
            lemma_take_snoc(pb_preds.deep_view(), k2 as int);
        }
        preds.push(pb_preds[k2].clone());
        proof {
            assert(preds.deep_view() =~= prev.push(pb_preds.deep_view()[k2 as int]));
            assert(preds.deep_view() =~= apart + pb_preds.deep_view().take(k2 as int + 1));
        }
        k2 = k2 + 1;
    }
    proof {
        assert(pb_preds.deep_view().take(pb_preds.len() as int) =~= pb_preds.deep_view());
        assert(preds.deep_view() =~= rel_preds(
            a@,
            r_alias@,
            b@,
            rel.deep_view(),
            src.deep_view(),
            dst.deep_view(),
        ));
    }
    append_where(&mut out, &preds);
    out.append(";");
    proof {
        assert(out@ =~= rel_select_sql(
            vars.deep_view(),
            a@,
            r_alias@,
            b@,
            rel.deep_view(),
            src.deep_view(),
            dst.deep_view(),
        ));
    }
    out
}

/// Builds the `DELETE FROM nodes` statement for a node variable.
pub fn mk_node_delete(n: &NodePat) -> (r: String)
    ensures
        r@ == node_delete_sql(n.deep_view()),
{
    let mut out = String::new();
    out.append("DELETE FROM nodes");
    let empty = String::new();
    let preds = mk_node_preds(&empty, n);
    append_where(&mut out, &preds);
    out.append(";");
    proof {
        assert(out@ =~= node_delete_sql(n.deep_view()));
    }
    out
}

/// Builds the edge-cleanup statement of `DETACH DELETE`.
pub fn mk_edge_cleanup(n: &NodePat) -> (r: String)
    ensures
        r@ == edge_cleanup_sql(n.deep_view()),
{
    let mut out = String::new();
    out.append("DELETE FROM edges WHERE src_id IN (SELECT id FROM nodes");
    let empty = String::new();
    let preds = mk_node_preds(&empty, n);
    append_where(&mut out, &preds);
    out.append(") OR dst_id IN (SELECT id FROM nodes");
    append_where(&mut out, &preds);
    out.append(");");
    proof {
        assert(out@ =~= edge_cleanup_sql(n.deep_view()));
    }
    out
}

/// Builds the `DELETE FROM edges` statement for an edge variable.
pub fn mk_edge_delete(rel: &RelPat) -> (r: String)
    ensures
        r@ == edge_delete_sql(rel.deep_view()),
{
    let mut out = String::new();
    out.append("DELETE FROM edges");
    let mut preds: Vec<String> = Vec::new();
    proof {
        assert(preds.deep_view() =~= Seq::<Seq<char>>::empty());
    }
    match &rel.rel_type {
        Some(t) => {
            let mut tp = String::new();
            tp.append("type = ");
            append_sql_str(&mut tp, t);
            preds.push(tp);
            proof {
                assert(preds.deep_view() =~= seq!["type = "@ + sql_str(t@)]);
            }
        },
        None => {},
    }
    append_where(&mut out, &preds);
    out.append(";");
    proof {
        assert(out@ =~= edge_delete_sql(rel.deep_view()));
    }
    out
}

/// Builds the `INSERT ... SELECT` statement of a relationship `CREATE`.
pub fn mk_insert_edge(
    a: &String,
    src: &NodePat,
    b: &String,
    dst: &NodePat,
    rel_type: &Option<String>,
) -> (r: String)
    ensures
        r@ == insert_edge_sql(a@, src.deep_view(), b@, dst.deep_view(), rel_type.deep_view()),
{
    let mut out = String::new();
    out.append("INSERT INTO edges (src_id, dst_id, type) SELECT ");
    out.append(a.as_str());
    out.append(".id, ");
    out.append(b.as_str());
    out.append(".id, ");
    append_sql_str_opt(&mut out, rel_type);
    out.append(" FROM nodes ");
    out.append(a.as_str());
    out.append(", nodes ");
    out.append(b.as_str());
    let pa = mk_alias_prefix(a);
    let pa_preds = mk_node_preds(&pa, src);
    let pb = mk_alias_prefix(b);
    let pb_preds = mk_node_preds(&pb, dst);
    let mut preds = pa_preds;
    let ghost apart = preds.deep_view();
    let mut k: usize = 0;
    while k < pb_preds.len()
        invariant
            k <= pb_preds.len(),
            preds.deep_view() =~= apart + pb_preds.deep_view().take(k as int),
            pb_preds.deep_view() == node_preds(b@ + "."@, dst.deep_view()),
        decreases pb_preds.len() - k,
    {
        let ghost prev = preds.deep_view();
        proof {
            lemma_take_snoc(pb_preds.deep_view(), k as int);
        }
        preds.push(pb_preds[k].clone());
        proof {
            assert(preds.deep_view() =~= prev.push(pb_preds.deep_view()[k as int]));
            assert(preds.deep_view() =~= apart + pb_preds.deep_view().take(k as int + 1));
        }
        k = k + 1;
    }
    proof {
        assert(pb_preds.deep_view().take(pb_preds.len() as int) =~= pb_preds.deep_view());
        assert(preds.deep_view() =~= node_preds(a@ + "."@, src.deep_view()) + node_preds(
            b@ + "."@,
            dst.deep_view(),
        ));
    }
    append_where(&mut out, &preds);
    out.append(";");
    proof {
        assert(out@ =~= insert_edge_sql(
            a@,
            src.deep_view(),
            b@,
            dst.deep_view(),
            rel_type.deep_view(),
        ));
    }
    out
}

} // verus!
