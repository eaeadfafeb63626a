use vstd::prelude::*;

verus! {

/// Error text of a failed token check that carries no error string.
pub const TOKEN_NOT_VALIDATED: &'static str = "Could not validate auth token";

/// Error text of a token check whose answer lists no scopes.
pub const SCOPES_HEADER_MISSING: &'static str = "x-oauth-scopes header not found";

/// The scopes a token needs for a full export.
pub open spec fn required_scopes() -> Seq<Seq<char>> {
    seq![
        "admin.usergroups:read"@,
        "channels:history"@,
        "channels:read"@,
        "groups:history"@,
        "groups:read"@,
        "im:history"@,
        "im:read"@,
        "mpim:history"@,
        "mpim:read"@,
    ]
}

/// The pieces of `s` between commas, in order; one piece where there is none.
pub open spec fn split_commas(s: Seq<char>) -> Seq<Seq<char>>
    decreases s.len(),
{
    if s.len() == 0 {
        seq![Seq::empty()]
    } else {
        let p = split_commas(s.drop_last());
        if s.last() == ',' {
            p.push(Seq::empty())
        } else {
            p.update(p.len() - 1, p.last().push(s.last()))
        }
    }
}

/// `s` without its leading and trailing whitespace, as `str::trim` gives it.
pub uninterp spec fn trimmed(s: Seq<char>) -> Seq<char>;

/// The scopes a comma-separated scope header grants.
pub open spec fn granted_scopes(header: Seq<char>) -> Seq<Seq<char>> {
    split_commas(header).map_values(|p: Seq<char>| trimmed(p))
}

/// The scopes of `required` that `granted` lacks, in the order of `required`.
pub open spec fn missing_from(required: Seq<Seq<char>>, granted: Seq<Seq<char>>) -> Seq<Seq<char>>
    decreases required.len(),
{
    if required.len() == 0 {
        Seq::empty()
    } else {
        let m = missing_from(required.drop_last(), granted);
        if granted.contains(required.last()) {
            m
        } else {
            m.push(required.last())
        }
    }
}

/// The scopes, each in double quotes, separated by `, `.
pub open spec fn quoted_list(s: Seq<Seq<char>>) -> Seq<char>
    decreases s.len(),
{
    if s.len() == 0 {
        Seq::empty()
    } else if s.len() == 1 {
        "\""@ + s[0] + "\""@
    } else {
        quoted_list(s.drop_last()) + ", \""@ + s.last() + "\""@
    }
}

/// The error text that names the missing scopes.
pub open spec fn missing_scopes_text(missing: Seq<Seq<char>>) -> Seq<char> {
    "Missing scopes {"@ + quoted_list(missing) + "}"@
}

/// The views of a list of strings.
pub open spec fn views(v: Seq<String>) -> Seq<Seq<char>> {
    v.map_values(|s: String| s@)
}

/// Relies on `str::trim`: the text without leading and trailing whitespace.
#[verifier::external_body]
fn trim_text(s: &str) -> (r: String)
    ensures
        r@ == trimmed(s@),
{
    s.trim().to_string()
}

/// The scopes a token needs for a full export.
pub fn required_scope_list() -> (r: Vec<String>)
    ensures
        views(r@) == required_scopes(),
{
    let r = vec![
        "admin.usergroups:read".to_owned(),
        "channels:history".to_owned(),
        "channels:read".to_owned(),
        "groups:history".to_owned(),
        "groups:read".to_owned(),
        "im:history".to_owned(),
        "im:read".to_owned(),
        "mpim:history".to_owned(),
        "mpim:read".to_owned(),
    ];
    assert(views(r@) =~= required_scopes());
    r
}

/// The scopes that the comma-separated scope header grants, each trimmed.
pub fn parse_scopes(header: &str) -> (r: Vec<String>)
    ensures
        views(r@) == granted_scopes(header@),
{
    let n = header.unicode_len();
    let mut pieces: Vec<String> = Vec::new();
    let mut start: usize = 0;
    let mut i: usize = 0;
    assert(header@.take(0) =~= Seq::<char>::empty());
    assert(header@.subrange(0, 0) =~= Seq::<char>::empty());
    assert(views(pieces@).push(header@.subrange(0, 0)) =~= split_commas(header@.take(0)));
    while i < n
        invariant
            n == header@.len(),
            start <= i <= n,
            views(pieces@).push(header@.subrange(start as int, i as int)) == split_commas(header@.take(i as int)),
        decreases n - i,
    {
        let c = header.get_char(i);
        assert(header@.take(i + 1).drop_last() =~= header@.take(i as int));
        assert(header@.take(i + 1).last() == c);
        if c == ',' {
            let piece = header.substring_char(start, i).to_owned();
            pieces.push(piece);
            start = i + 1;
            assert(header@.subrange(start as int, (i + 1) as int) =~= Seq::<char>::empty());
            assert(views(pieces@).push(header@.subrange(start as int, (i + 1) as int)) =~= split_commas(header@.take(i + 1)));
        } else {
            assert(header@.subrange(start as int, i as int).push(c) =~= header@.subrange(start as int, i + 1));
            assert(views(pieces@).push(header@.subrange(start as int, i + 1)) =~= split_commas(header@.take(i + 1)));
        }
        i = i + 1;
    }
    let last = header.substring_char(start, n).to_owned();
    pieces.push(last);
    assert(header@.take(n as int) =~= header@);
    assert(views(pieces@) =~= split_commas(header@));
    let mut out: Vec<String> = Vec::new();
    let mut k: usize = 0;
    while k < pieces.len()
        invariant
            k <= pieces@.len(),
            views(pieces@) == split_commas(header@),
            views(out@) == views(pieces@).take(k as int).map_values(|p: Seq<char>| trimmed(p)),
        decreases pieces.len() - k,
    {
        let t = trim_text(pieces[k].as_str());
        let ghost old_out = views(out@);
        out.push(t);
        assert(views(out@) =~= old_out.push(t@));
        assert(views(pieces@)[k as int] == pieces@[k as int]@);
        assert(views(out@) =~= views(pieces@).take(k + 1).map_values(|p: Seq<char>| trimmed(p)));
        k = k + 1;
    }
    assert(views(pieces@).take(k as int) =~= views(pieces@));
    out
}

fn contains_scope(granted: &Vec<String>, scope: &String) -> (r: bool)
    ensures
        r == views(granted@).contains(scope@),
{
    let mut i: usize = 0;
    while i < granted.len()
        invariant
            i <= granted@.len(),
            forall|k: int| 0 <= k < i ==> #[trigger] granted@[k]@ != scope@,
        decreases granted.len() - i,
    {
        if granted[i] == *scope {
            assert(views(granted@)[i as int] == scope@);
            return true;
        }
        i = i + 1;
    }
    assert forall|k: int| 0 <= k < views(granted@).len() implies views(granted@)[k] != scope@ by {
        assert(views(granted@)[k] == granted@[k]@);
    }
    false
}

/// The required scopes that `granted` lacks, in the order they are required.
pub fn missing_scopes(granted: &Vec<String>) -> (r: Vec<String>)
    ensures
        views(r@) == missing_from(required_scopes(), views(granted@)),
{
    let required = required_scope_list();
    let mut out: Vec<String> = Vec::new();
    let mut i: usize = 0;
    assert(views(required@).take(0) =~= Seq::<Seq<char>>::empty());
    while i < required.len()
        invariant
            i <= required@.len(),
            views(required@) == required_scopes(),
            views(out@) == missing_from(views(required@).take(i as int), views(granted@)),
        decreases required.len() - i,
    {
        let scope = &required[i];
        let ghost pre = views(required@).take(i + 1);
        assert(pre.drop_last() =~= views(required@).take(i as int));
        assert(pre.last() == scope@);
        if !contains_scope(granted, scope) {
            out.push(scope.clone());
        }
        assert(views(out@) =~= missing_from(pre, views(granted@)));
        i = i + 1;
    }
    assert(views(required@).take(i as int) =~= views(required@));
    out
}

/// The error text naming the scopes `missing`.
pub fn missing_scopes_message(missing: &Vec<String>) -> (r: String)
    ensures
        r@ == missing_scopes_text(views(missing@)),
{
    let mut list = String::new();
    let mut i: usize = 0;
    assert(views(missing@).take(0) =~= Seq::<Seq<char>>::empty());
    while i < missing.len()
        invariant
            i <= missing@.len(),
            list@ == quoted_list(views(missing@).take(i as int)),
        decreases missing.len() - i,
    {
        let ghost pre = views(missing@).take(i + 1);
        assert(pre.drop_last() =~= views(missing@).take(i as int));
        assert(pre.last() == missing@[i as int]@);
        if i > 0 {
            list.append(", \"");
        } else {
            list.append("\"");
        }
        list.append(missing[i].as_str());
        list.append("\"");
        if i == 0 {
            assert(pre.len() == 1);
            assert(pre[0] == missing@[0]@);
            assert(list@ =~= quoted_list(pre));
        } else {
            assert(list@ =~= quoted_list(pre));
        }
        i = i + 1;
    }
    assert(views(missing@).take(i as int) =~= views(missing@));
    let mut r = String::new();
    r.append("Missing scopes {");
    r.append(list.as_str());
    r.append("}");
    assert(r@ =~= missing_scopes_text(views(missing@)));
    r
}

/// Decides a token check from its answer: `ok`, the error string, and the
/// scope header (absent when the answer has none). The token passes when the
/// check succeeded and the header grants every required scope.
pub fn check_token(ok: bool, error: Option<String>, scopes: Option<String>) -> (r: Result<(), String>)
    ensures
        !ok ==> r is Err && r->Err_0@ == match error {
            Some(e) => e@,
            None => TOKEN_NOT_VALIDATED@,
        },
        ok && scopes is None ==> r is Err && r->Err_0@ == SCOPES_HEADER_MISSING@,
        ok && scopes is Some ==> {
            let missing = missing_from(required_scopes(), granted_scopes(scopes->0@));
            &&& r is Ok <==> missing.len() == 0
            &&& r is Err ==> r->Err_0@ == missing_scopes_text(missing)
        },
{
    if !ok {
        return match error {
            Some(e) => Err(e),
            None => Err(TOKEN_NOT_VALIDATED.to_owned()),
        };
    }
    match scopes {
        None => Err(SCOPES_HEADER_MISSING.to_owned()),
        Some(header) => {
            let granted = parse_scopes(header.as_str());
            let missing = missing_scopes(&granted);
            if missing.len() == 0 {
                Ok(())
            } else {
                Err(missing_scopes_message(&missing))
            }
        },
    }
}

} // verus!
