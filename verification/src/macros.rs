//! Declarative macro application: splitting a definition body into rules,
//! matching an invocation against a rule's pattern, substituting captures
//! into the template, and re-parsing the result as an item list. All of it
//! is fail-soft: what does not fit the supported shapes is left unexpanded
//! and surfaces as a warning at the end of the walk.
//!
//! Matching covers literal tokens, delimited groups and single-fragment
//! captures (`$x:ty` and the like). Repetition matchers (`$(...)*`,
//! `$(...),+`, `$(...)?`) are not matched: a rule whose pattern uses them
//! fails to match, so the invocation stays parked and is counted among the
//! residual warnings rather than expanded wrongly.

use vstd::prelude::*;

use crate::attributes::Span;
use crate::items::{DeclarativeMacroItem, MacroRule};
use crate::paths::Path;
use crate::strmap::StrMap;
use crate::syntax::{SynField, SynFields, SynItem, SynStruct, SynVis};
use crate::tokens::{clone_token, clone_tokens, Delim, Token, token_eq, Tokens, toks_view, TokenV};

verus! {

/// The index just past the token tree starting at `i`: one token, or a
/// delimited group with its balanced contents. `None` when the stream is
/// unbalanced or exhausted.
pub fn tree_end(toks: &Vec<Token>, i: usize) -> (r: Option<usize>)
    ensures
        r is Some ==> i < r->Some_0 <= toks@.len(),
{
    if i >= toks.len() {
        return None;
    }
    match &toks[i] {
        Token::Open(_) => {
            let mut depth: usize = 1;
            let mut j = i + 1;
            while j < toks.len() && depth > 0
                invariant
                    i < j <= toks@.len(),
                    depth <= j,
                decreases toks@.len() - j,
            {
                match &toks[j] {
                    Token::Open(_) => {
                        if depth < usize::MAX {
                            depth = depth + 1;
                        }
                    },
                    Token::Close(_) => {
                        depth = depth - 1;
                    },
                    _ => {},
                }
                j += 1;
            }
            if depth == 0 {
                Some(j)
            } else {
                None
            }
        },
        Token::Close(_) => None,
        _ => Some(i + 1),
    }
}

/// The tokens from `from` (inclusive) to `to` (exclusive), copied out.
pub fn slice_tokens(toks: &Vec<Token>, from: usize, to: usize) -> (r: Vec<Token>)
    requires
        from <= to <= toks@.len(),
    ensures
        r@.len() == to - from,
{
    let mut out: Vec<Token> = Vec::new();
    let mut i = from;
    while i < to
        invariant
            from <= i <= to <= toks@.len(),
            out@.len() == i - from,
        decreases to - i,
    {
        out.push(clone_token(&toks[i]));
        i += 1;
    }
    out
}

/// Split a definition body into `(pattern) => (template)` rules, separated
/// by `;` or `,`. Anything that does not fit this shape ends the list.
pub fn split_rules(body: &Tokens) -> (r: Vec<MacroRule>)
    ensures
        body.toks@.len() == 0 ==> r@.len() == 0,
{
    let toks = &body.toks;
    let mut rules: Vec<MacroRule> = Vec::new();
    if toks.len() > usize::MAX - 8 {
        return rules;
    }
    let mut i: usize = 0;
    while i < toks.len()
        invariant
            toks@ == body.toks@,
            toks@.len() <= usize::MAX - 8,
            i <= toks@.len(),
            toks@.len() == 0 ==> rules@.len() == 0,
        decreases toks@.len() - i,
    {
        let pat_end = match tree_end(toks, i) {
            Some(e) => e,
            None => {
                return rules;
            },
        };
        let is_group = match &toks[i] {
            Token::Open(_) => true,
            _ => false,
        };
        if !is_group || pat_end < i + 2 {
            return rules;
        }
        let pattern = slice_tokens(toks, i + 1, pat_end - 1);
        let mut j = pat_end;
        // the arrow between pattern and template
        if j + 1 < toks.len() && token_eq(&toks[j], &Token::Punct('=')) && token_eq(
            &toks[j + 1],
            &Token::Punct('>'),
        ) {
            j += 2;
        } else {
            return rules;
        }
        let tpl_end = match tree_end(toks, j) {
            Some(e) => e,
            None => {
                return rules;
            },
        };
        let tpl_group = match &toks[j] {
            Token::Open(_) => true,
            _ => false,
        };
        if !tpl_group || tpl_end < j + 2 {
            return rules;
        }
        let template = slice_tokens(toks, j + 1, tpl_end - 1);
        rules.push(
            MacroRule {
                pattern: Tokens { toks: pattern },
                template: Tokens { toks: template },
            },
        );
        i = tpl_end;
        // an optional separator between rules
        if i < toks.len() && (token_eq(&toks[i], &Token::Punct(';')) || token_eq(
            &toks[i],
            &Token::Punct(','),
        )) {
            i += 1;
        }
    }
    rules
}

/// Match an invocation's tokens against one rule's pattern. A fragment
/// matcher `$name:kind` captures one token tree; every other pattern token
/// must appear verbatim. Repetition matchers are not attempted: such a
/// pattern simply fails to match, and the invocation stays parked.
pub fn match_pattern(pattern: &Vec<Token>, input: &Vec<Token>) -> (r: Option<
    StrMap<Vec<Token>>,
>)
    ensures
        r is Some ==> r->Some_0.wf(),
        pattern@.len() == 0 ==> (r is Some <==> input@.len() == 0),
{
    let mut binds: StrMap<Vec<Token>> = StrMap::new();
    if pattern.len() > usize::MAX - 8 || input.len() > usize::MAX - 8 {
        return None;
    }
    let mut pi: usize = 0;
    let mut ii: usize = 0;
    while pi < pattern.len()
        invariant
            pattern@.len() <= usize::MAX - 8,
            input@.len() <= usize::MAX - 8,
            pi <= pattern@.len(),
            ii <= input@.len(),
            pattern@.len() == 0 ==> ii == 0,
            binds.wf(),
        decreases pattern@.len() - pi,
    {
        let is_dollar = token_eq(&pattern[pi], &Token::Punct('$'));
        if is_dollar && pi + 4 <= pattern.len() {
            // a fragment matcher: `$` name `:` kind
            let name = match &pattern[pi + 1] {
                Token::Ident(n) => Some(n.clone()),
                _ => None,
            };
            let colon = pi + 2 < pattern.len() && token_eq(&pattern[pi + 2], &Token::Punct(':'));
            let kind_ok = pi + 3 < pattern.len() && (match &pattern[pi + 3] {
                Token::Ident(_) => true,
                _ => false,
            });
            match name {
                Some(n) if colon && kind_ok => {
                    let end = match tree_end(input, ii) {
                        Some(e) => e,
                        None => {
                            return None;
                        },
                    };
                    let captured = slice_tokens(input, ii, end);
                    let _ = binds.insert(n, captured);
                    ii = end;
                    pi += 4;
                    continue ;
                },
                _ => {
                    // a repetition or another unsupported matcher
                    return None;
                },
            }
        }
        if ii >= input.len() {
            return None;
        }
        if !token_eq(&pattern[pi], &input[ii]) {
            return None;
        }
        pi += 1;
        ii += 1;
    }
    if ii == input.len() {
        Some(binds)
    } else {
        None
    }
}

/// The value of substitution: a `$` followed by a bound name is replaced
/// by the captured tokens; an unbound `$name`, and every other token, is
/// copied through unchanged.
pub open spec fn spec_substitute(
    template: Seq<TokenV>,
    binds: Map<Seq<char>, Seq<TokenV>>,
) -> Seq<TokenV>
    decreases template.len(),
{
    if template.len() == 0 {
        Seq::<TokenV>::empty()
    } else if template.len() >= 2 && template[0] == TokenV::Punct('$') && template[1] is Ident
        && binds.contains_key(template[1]->Ident_0) {
        binds[template[1]->Ident_0] + spec_substitute(template.skip(2), binds)
    } else {
        seq![template[0]] + spec_substitute(template.skip(1), binds)
    }
}

/// A capture map at the view level: each binding as its token views.
pub open spec fn binds_view(m: Map<Seq<char>, Vec<Token>>) -> Map<Seq<char>, Seq<TokenV>> {
    m.map_values(|v: Vec<Token>| toks_view(v@))
}

/// Substitute captures into a template: `$name` splices the bound tokens,
/// everything else is copied through.
pub fn substitute(template: &Vec<Token>, binds: &StrMap<Vec<Token>>) -> (r: Vec<Token>)
    requires
        binds.wf(),
    ensures
        toks_view(r@) == spec_substitute(toks_view(template@), binds_view(binds@)),
{
    let ghost tv = toks_view(template@);
    let ghost bv = binds_view(binds@);
    let mut out: Vec<Token> = Vec::new();
    let mut i: usize = 0;
    proof {
        assert(tv.skip(0) =~= tv);
        assert(toks_view(out@) + spec_substitute(tv.skip(0), bv) =~= spec_substitute(tv, bv));
    }
    while i < template.len()
        invariant
            tv == toks_view(template@),
            bv == binds_view(binds@),
            tv.len() == template@.len(),
            i <= template@.len(),
            binds.wf(),
            spec_substitute(tv, bv) == toks_view(out@) + spec_substitute(tv.skip(i as int), bv),
        decreases template@.len() - i,
    {
        let ghost s = tv.skip(i as int);
        proof {
            assert(s[0] == template@[i as int]@);
        }
        let is_dollar = token_eq(&template[i], &Token::Punct('$'));
        if is_dollar && i + 1 < template.len() {
            proof {
                assert(s[1] == template@[i + 1]@);
            }
            match &template[i + 1] {
                Token::Ident(n) => {
                    match binds.get(n) {
                        Some(captured) => {
                            let ghost out0 = out@;
                            let ghost cap = toks_view(captured@);
                            let mut copied = clone_tokens(captured);
                            out.append(&mut copied);
                            proof {
                                assert(s[1] is Ident && s[1]->Ident_0 == n@);
                                assert(bv.contains_key(n@) && bv[n@] == cap);
                                assert(spec_substitute(s, bv) == bv[n@] + spec_substitute(
                                    s.skip(2),
                                    bv,
                                ));
                                assert(s.skip(2) =~= tv.skip(i + 2));
                                assert(toks_view(out@) =~= toks_view(out0) + cap);
                                assert(toks_view(out@) + spec_substitute(tv.skip(i + 2), bv)
                                    =~= toks_view(out0) + spec_substitute(s, bv));
                            }
                            i += 2;
                            continue ;
                        },
                        None => {
                            proof {
                                assert(!bv.contains_key(n@));
                            }
                        },
                    }
                },
                _ => {},
            }
        }
        let ghost out0 = out@;
        out.push(clone_token(&template[i]));
        proof {
            assert(spec_substitute(s, bv) == seq![s[0]] + spec_substitute(s.skip(1), bv));
            assert(s.skip(1) =~= tv.skip(i + 1));
            assert(toks_view(out@) =~= toks_view(out0) + seq![s[0]]);
            assert(toks_view(out@) + spec_substitute(tv.skip(i + 1), bv) =~= toks_view(out0)
                + spec_substitute(s, bv));
        }
        i += 1;
    }
    proof {
        assert(tv.skip(i as int) =~= Seq::<TokenV>::empty());
        assert(toks_view(out@) + spec_substitute(tv.skip(i as int), bv) =~= toks_view(out@));
    }
    out
}

/// Apply a declarative macro to an invocation: the first rule whose pattern
/// matches provides the template; `None` when no rule matches, in
/// particular for a definition without rules.
pub fn apply_macro(def: &DeclarativeMacroItem, input: &Tokens) -> (r: Option<Tokens>)
    ensures
        def.rules@.len() == 0 ==> r is None,
{
    let n = def.rules.len();
    let mut i: usize = 0;
    while i < n
        invariant
            n == def.rules@.len(),
            i <= n,
        decreases n - i,
    {
        match match_pattern(&def.rules[i].pattern.toks, &input.toks) {
            Some(binds) => {
                let toks = substitute(&def.rules[i].template.toks, &binds);
                return Some(Tokens { toks });
            },
            None => {},
        }
        i += 1;
    }
    None
}

/// A synthesized span for items produced by expansion.
fn expansion_span() -> (r: Span) {
    Span::new("", 0, 0)
}

/// Parse one `::`-separated identifier path starting at `i`; returns the
/// path and the index just past it.
fn parse_path(toks: &Vec<Token>, i: usize) -> (r: Option<(Path, usize)>)
    requires
        i <= toks@.len(),
    ensures
        r is Some ==> i < r->Some_0.1 <= toks@.len(),
{
    let mut segments: Vec<String> = Vec::new();
    if toks.len() > usize::MAX - 8 {
        return None;
    }
    let mut j = i;
    loop
        invariant
            toks@.len() <= usize::MAX - 8,
            i <= j <= toks@.len(),
            j > i ==> segments@.len() > 0,
        decreases toks@.len() - j,
    {
        if j >= toks.len() {
            break ;
        }
        match &toks[j] {
            Token::Ident(seg) => {
                segments.push(seg.clone());
                j += 1;
                if j + 2 < toks.len() && token_eq(&toks[j], &Token::Punct(':')) && token_eq(
                    &toks[j + 1],
                    &Token::Punct(':'),
                ) {
                    let more = match &toks[j + 2] {
                        Token::Ident(_) => true,
                        _ => false,
                    };
                    if more {
                        j += 2;
                    } else {
                        break ;
                    }
                } else {
                    break ;
                }
            },
            _ => {
                break ;
            },
        }
    }
    if j > i && segments.len() > 0 {
        Some((Path { segments }, j))
    } else {
        None
    }
}

/// Re-parse a substituted token sequence as an item list. The grammar
/// covered is the part macro templates commonly produce here: structures of
/// every shape, imports, and further macro invocations; anything else is
/// skipped token by token, and the second result counts the tokens so
/// skipped: a caller surfaces a nonzero count instead of dropping the text
/// silently.
pub fn parse_items(toks: &Vec<Token>) -> (r: (Vec<SynItem>, usize))
    ensures
        r.1 <= toks@.len(),
        toks@.len() == 0 ==> r.0@.len() == 0 && r.1 == 0,
{
    let mut items: Vec<SynItem> = Vec::new();
    if toks.len() > usize::MAX - 8 {
        let n = toks.len();
        return (items, n);
    }
    let mut i: usize = 0;
    let mut skipped: usize = 0;
    while i < toks.len()
        invariant
            toks@.len() <= usize::MAX - 8,
            i <= toks@.len(),
            skipped <= i,
            toks@.len() == 0 ==> items@.len() == 0,
        decreases toks@.len() - i,
    {
        let mut vis = SynVis::Inherited;
        let mut j = i;
        if token_eq(&toks[j], &Token::Ident(("pub").to_owned())) {
            vis = SynVis::Pub;
            j += 1;
        }
        if j < toks.len() && token_eq(&toks[j], &Token::Ident(("struct").to_owned())) {
            if j + 1 < toks.len() {
                let name = match &toks[j + 1] {
                    Token::Ident(n) => Some(n.clone()),
                    _ => None,
                };
                match name {
                    Some(name) => {
                        match parse_struct_tail(toks, j + 2, vis, name) {
                            Some((item, next)) => {
                                items.push(item);
                                i = next;
                                continue ;
                            },
                            None => {},
                        }
                    },
                    None => {},
                }
            }
        }
        if j < toks.len() && token_eq(&toks[j], &Token::Ident(("use").to_owned())) {
            match parse_use_tail(toks, j + 1, vis) {
                Some((item, next)) => {
                    items.push(item);
                    i = next;
                    continue ;
                },
                None => {},
            }
        }
        // a macro invocation: path ! ( tokens ) ;
        match parse_path(toks, j) {
            Some((mpath, after)) => {
                if after < toks.len() && token_eq(&toks[after], &Token::Punct('!')) {
                    match tree_end(toks, after + 1) {
                        Some(end) if after + 1 < toks.len() => {
                            let inner = match &toks[after + 1] {
                                Token::Open(_) => {
                                    if end >= after + 3 {
                                        slice_tokens(toks, after + 2, end - 1)
                                    } else {
                                        Vec::new()
                                    }
                                },
                                _ => Vec::new(),
                            };
                            let mut next = end;
                            if next < toks.len() && token_eq(&toks[next], &Token::Punct(';')) {
                                next += 1;
                            }
                            items.push(
                                SynItem::MacroCall {
                                    path: mpath,
                                    tokens: Tokens { toks: inner },
                                    span: expansion_span(),
                                },
                            );
                            i = next;
                            continue ;
                        },
                        _ => {},
                    }
                }
            },
            None => {},
        }
        skipped += 1;
        i += 1;
    }
    (items, skipped)
}

/// Parse what follows a struct's name: `;`, a tuple body, or a named body.
fn parse_struct_tail(toks: &Vec<Token>, i: usize, vis: SynVis, name: String) -> (r: Option<
    (SynItem, usize),
>)
    ensures
        r is Some ==> r->Some_0.1 > i && r->Some_0.1 <= toks@.len(),
{
    if i >= toks.len() || toks.len() > usize::MAX - 8 {
        return None;
    }
    if token_eq(&toks[i], &Token::Punct(';')) {
        let item = SynItem::Struct(
            SynStruct {
                vis,
                attrs: Vec::new(),
                name,
                generics: crate::items::GenericParams::default(),
                fields: SynFields::Unit,
                span: expansion_span(),
            },
        );
        return Some((item, i + 1));
    }
    match &toks[i] {
        Token::Open(Delim::Brace) => {
            let end = match tree_end(toks, i) {
                Some(e) => e,
                None => {
                    return None;
                },
            };
            let inner = if end >= i + 2 {
                slice_tokens(toks, i + 1, end - 1)
            } else {
                Vec::new()
            };
            let fields = parse_named_fields(&inner);
            let item = SynItem::Struct(
                SynStruct {
                    vis,
                    attrs: Vec::new(),
                    name,
                    generics: crate::items::GenericParams::default(),
                    fields: SynFields::Named(fields),
                    span: expansion_span(),
                },
            );
            Some((item, end))
        },
        Token::Open(Delim::Paren) => {
            let end = match tree_end(toks, i) {
                Some(e) => e,
                None => {
                    return None;
                },
            };
            let inner = if end >= i + 2 {
                slice_tokens(toks, i + 1, end - 1)
            } else {
                Vec::new()
            };
            let fields = parse_tuple_fields(&inner);
            let mut next = end;
            if next < toks.len() && token_eq(&toks[next], &Token::Punct(';')) {
                next += 1;
            }
            let item = SynItem::Struct(
                SynStruct {
                    vis,
                    attrs: Vec::new(),
                    name,
                    generics: crate::items::GenericParams::default(),
                    fields: SynFields::Unnamed(fields),
                    span: expansion_span(),
                },
            );
            Some((item, next))
        },
        _ => None,
    }
}

/// Split a token run at top-level commas.
fn split_commas(toks: &Vec<Token>) -> (r: Vec<Vec<Token>>) {
    let mut parts: Vec<Vec<Token>> = Vec::new();
    let mut cur: Vec<Token> = Vec::new();
    let mut depth: usize = 0;
    let mut i: usize = 0;
    while i < toks.len()
        invariant
            i <= toks@.len(),
        decreases toks@.len() - i,
    {
        match &toks[i] {
            Token::Open(_) => {
                if depth < usize::MAX {
                    depth += 1;
                }
                cur.push(clone_token(&toks[i]));
            },
            Token::Close(_) => {
                if depth > 0 {
                    depth -= 1;
                }
                cur.push(clone_token(&toks[i]));
            },
            Token::Punct(c) if *c == ',' && depth == 0 => {
                parts.push(cur);
                cur = Vec::new();
            },
            _ => {
                cur.push(clone_token(&toks[i]));
            },
        }
        i += 1;
    }
    if cur.len() > 0 {
        parts.push(cur);
    }
    parts
}

/// A written type from raw tokens: a path type where the tokens are one
/// path, otherwise an uninterpreted token run.
fn type_from_tokens(toks: Vec<Token>) -> (r: crate::syntax::SynType) {
    match parse_path(&toks, 0) {
        Some((p, after)) if after == toks.len() => crate::syntax::SynType::Path {
            path: p,
            params: Vec::new(),
        },
        _ => crate::syntax::SynType::Opaque(Tokens { toks }),
    }
}

/// Parse `name : type` fields separated by commas.
fn parse_named_fields(toks: &Vec<Token>) -> (r: Vec<SynField>) {
    let parts = split_commas(toks);
    let mut fields: Vec<SynField> = Vec::new();
    let n = parts.len();
    let mut i: usize = 0;
    while i < n
        invariant
            n == parts@.len(),
            i <= n,
        decreases n - i,
    {
        let part = &parts[i];
        let mut k: usize = 0;
        let mut fvis = SynVis::Inherited;
        if k < part.len() && token_eq(&part[k], &Token::Ident(("pub").to_owned())) {
            fvis = SynVis::Pub;
            k += 1;
        }
        if k + 1 < part.len() && token_eq(&part[k + 1], &Token::Punct(':')) {
            let fname = match &part[k] {
                Token::Ident(nm) => Some(nm.clone()),
                _ => None,
            };
            match fname {
                Some(nm) => {
                    let ty_toks = slice_tokens(part, k + 2, part.len());
                    fields.push(
                        SynField {
                            vis: fvis,
                            attrs: Vec::new(),
                            name: Some(nm),
                            ty: type_from_tokens(ty_toks),
                            span: expansion_span(),
                        },
                    );
                },
                None => {},
            }
        }
        i += 1;
    }
    fields
}

/// Parse tuple field types separated by commas.
fn parse_tuple_fields(toks: &Vec<Token>) -> (r: Vec<SynField>) {
    let parts = split_commas(toks);
    let mut fields: Vec<SynField> = Vec::new();
    let n = parts.len();
    let mut i: usize = 0;
    while i < n
        invariant
            n == parts@.len(),
            i <= n,
        decreases n - i,
    {
        let mut k: usize = 0;
        let mut fvis = SynVis::Inherited;
        let part = &parts[i];
        if k < part.len() && token_eq(&part[k], &Token::Ident(("pub").to_owned())) {
            fvis = SynVis::Pub;
            k += 1;
        }
        let ty_toks = slice_tokens(part, if k <= part.len() {
            k
        } else {
            part.len()
        }, part.len());
        fields.push(
            SynField {
                vis: fvis,
                attrs: Vec::new(),
                name: None,
                ty: type_from_tokens(ty_toks),
                span: expansion_span(),
            },
        );
        i += 1;
    }
    fields
}

/// Parse an import after the `use` keyword: a path, an optional rename or
/// trailing `::*`, and the closing `;`.
fn parse_use_tail(toks: &Vec<Token>, i: usize, vis: SynVis) -> (r: Option<(SynItem, usize)>)
    requires
        i <= toks@.len(),
    ensures
        r is Some ==> r->Some_0.1 > i && r->Some_0.1 <= toks@.len(),
{
    if toks.len() > usize::MAX - 8 {
        return None;
    }
    let (p, mut j) = match parse_path(toks, i) {
        Some(x) => x,
        None => {
            return None;
        },
    };
    let mut glob = false;
    let mut rename: Option<String> = None;
    if j + 2 < toks.len() && token_eq(&toks[j], &Token::Punct(':')) && token_eq(
        &toks[j + 1],
        &Token::Punct(':'),
    ) && token_eq(&toks[j + 2], &Token::Punct('*')) {
        glob = true;
        j += 3;
    } else if j < toks.len() && token_eq(&toks[j], &Token::Ident(("as").to_owned())) && j + 1
        < toks.len() {
        match &toks[j + 1] {
            Token::Ident(nm) => {
                rename = Some(nm.clone());
                j += 2;
            },
            _ => {},
        }
    }
    if j < toks.len() && token_eq(&toks[j], &Token::Punct(';')) {
        j += 1;
    }
    Some(
        (
            SynItem::Use {
                vis,
                attrs: Vec::new(),
                path: p,
                glob,
                rename,
                span: expansion_span(),
            },
            j,
        ),
    )
}

} // verus!
