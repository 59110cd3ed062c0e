//! Content-line tokenizer: parses one unfolded logical line into a property
//! name, an ordered list of parameters (each with one or more values, quoted
//! or unquoted), and a value string with backslash escapes resolved.

use vstd::prelude::*;

verus! {

use crate::error::ErrV;
use crate::error::ParserError;
use crate::error::err_invalid_escape;
use crate::error::err_invalid_name;
use crate::error::err_malformed_parameter;
use crate::error::err_no_separator;
use crate::error::err_unterminated_quote;
use crate::text::check_token;
use crate::text::is_token;
use crate::text::is_token_char;
use crate::text::spec_find;
use crate::text::find_char;
use crate::text::str_to_chars;
use crate::text::string_from_chars;
use crate::text::strings_view;
use crate::text::subvec;
use crate::unfold::lines_view;

/// A named, possibly multi-valued attribute of a property.
#[derive(Debug)]
pub struct Parameter {
    pub name: String,
    pub values: Vec<String>,
}

/// The mathematical shape of a `Parameter`.
#[verifier::ext_equal]
pub struct ParamV {
    pub name: Seq<char>,
    pub values: Seq<Seq<char>>,
}

impl View for Parameter {
    type V = ParamV;

    open spec fn view(&self) -> ParamV {
        ParamV { name: self.name@, values: strings_view(self.values@) }
    }
}

/// One parsed content line: name, parameters in encounter order, and the
/// value with its escape sequences resolved.
#[derive(Debug)]
pub struct ContentLine {
    pub name: String,
    pub parameters: Vec<Parameter>,
    pub value: String,
}

/// The mathematical shape of a `ContentLine`.
#[verifier::ext_equal]
pub struct ContentLineV {
    pub name: Seq<char>,
    pub params: Seq<ParamV>,
    pub value: Seq<char>,
}

/// The views of a sequence of parameters.
pub open spec fn params_view(v: Seq<Parameter>) -> Seq<ParamV> {
    Seq::new(v.len(), |i: int| v[i]@)
}

impl View for ContentLine {
    type V = ContentLineV;

    open spec fn view(&self) -> ContentLineV {
        ContentLineV {
            name: self.name@,
            params: params_view(self.parameters@),
            value: self.value@,
        }
    }
}

/// The position of the first `:` that does not stand inside double quotes.
pub open spec fn find_value_sep(l: Seq<char>, in_quotes: bool) -> Option<int>
    decreases l.len(),
{
    if l.len() == 0 {
        None
    } else if !in_quotes && l[0] == ':' {
        Some(0int)
    } else {
        let q = if l[0] == '"' {
            !in_quotes
        } else {
            in_quotes
        };
        match find_value_sep(l.drop_first(), q) {
            None => None,
            Some(i) => Some(1 + i),
        }
    }
}

/// Splitting the segment before the value separator on every `;` that does
/// not stand inside double quotes; always yields at least one segment.
pub open spec fn split_params_rec(s: Seq<char>, cur: Seq<char>, in_quotes: bool) -> Seq<
    Seq<char>,
>
    decreases s.len(),
{
    if s.len() == 0 {
        seq![cur]
    } else if !in_quotes && s[0] == ';' {
        seq![cur].add(split_params_rec(s.drop_first(), Seq::<char>::empty(), false))
    } else {
        let q = if s[0] == '"' {
            !in_quotes
        } else {
            in_quotes
        };
        split_params_rec(s.drop_first(), cur.push(s[0]), q)
    }
}

/// The `;`-delimited segments of the name-and-parameters part of a line.
pub open spec fn split_params(s: Seq<char>) -> Seq<Seq<char>> {
    split_params_rec(s, Seq::<char>::empty(), false)
}

/// The state of the parameter value lexer: in an unquoted value, inside a
/// quoted value, or just past the closing quote of a quoted value.
#[derive(PartialEq, Eq, Structural, Clone, Copy, Debug)]
pub enum LexMode {
    Plain,
    Quoted,
    AfterQuote,
}

/// Lexing the comma-separated value list of one parameter. A value that
/// begins with `"` is read verbatim up to the closing quote, so commas and
/// semicolons inside quotes do not separate; the quotes themselves are
/// stripped. After a closing quote only a comma or the end of the segment
/// may follow.
pub open spec fn lex_values_rec(s: Seq<char>, cur: Seq<char>, mode: LexMode) -> Result<
    Seq<Seq<char>>,
    ErrV,
>
    decreases s.len(),
{
    if s.len() == 0 {
        match mode {
            LexMode::Quoted => Err(err_unterminated_quote()),
            _ => Ok(seq![cur]),
        }
    } else {
        let c = s[0];
        let rest = s.drop_first();
        match mode {
            LexMode::Plain => {
                if c == '"' && cur.len() == 0 {
                    lex_values_rec(rest, cur, LexMode::Quoted)
                } else if c == ',' {
                    match lex_values_rec(rest, Seq::<char>::empty(), LexMode::Plain) {
                        Ok(vs) => Ok(seq![cur].add(vs)),
                        Err(e) => Err(e),
                    }
                } else {
                    lex_values_rec(rest, cur.push(c), LexMode::Plain)
                }
            },
            LexMode::Quoted => {
                if c == '"' {
                    lex_values_rec(rest, cur, LexMode::AfterQuote)
                } else {
                    lex_values_rec(rest, cur.push(c), LexMode::Quoted)
                }
            },
            LexMode::AfterQuote => {
                if c == ',' {
                    match lex_values_rec(rest, Seq::<char>::empty(), LexMode::Plain) {
                        Ok(vs) => Ok(seq![cur].add(vs)),
                        Err(e) => Err(e),
                    }
                } else {
                    Err(err_malformed_parameter())
                }
            },
        }
    }
}

/// The value list of one parameter segment.
pub open spec fn lex_values(s: Seq<char>) -> Result<Seq<Seq<char>>, ErrV> {
    lex_values_rec(s, Seq::<char>::empty(), LexMode::Plain)
}

/// One `;`-delimited parameter segment: `name=value1,value2,...`.
pub open spec fn lex_param(seg: Seq<char>) -> Result<ParamV, ErrV> {
    match spec_find(seg, '=') {
        None => Err(err_malformed_parameter()),
        Some(j) => {
            let name = seg.take(j);
            if !is_token(name) {
                Err(err_malformed_parameter())
            } else {
                match lex_values(seg.skip(j + 1)) {
                    Ok(vs) => Ok(ParamV { name, values: vs }),
                    Err(e) => Err(e),
                }
            }
        },
    }
}

/// All parameter segments of a line, in encounter order; the first error
/// wins.
pub open spec fn lex_params(segs: Seq<Seq<char>>) -> Result<Seq<ParamV>, ErrV>
    decreases segs.len(),
{
    if segs.len() == 0 {
        Ok(Seq::<ParamV>::empty())
    } else {
        match lex_param(segs[0]) {
            Err(e) => Err(e),
            Ok(p) => match lex_params(segs.drop_first()) {
                Ok(ps) => Ok(seq![p].add(ps)),
                Err(e) => Err(e),
            },
        }
    }
}

/// Resolving backslash escapes in raw value text: `\\`, `\;` and `\,` yield
/// the literal following character, `\n` and `\N` yield a newline, any other
/// escape — a trailing lone backslash included — is an error.
pub open spec fn resolve_escapes(s: Seq<char>) -> Result<Seq<char>, ErrV>
    decreases s.len(),
{
    if s.len() == 0 {
        Ok(Seq::<char>::empty())
    } else if s[0] == '\\' {
        if s.len() == 1 {
            Err(err_invalid_escape())
        } else {
            let c = s[1];
            if c == '\\' || c == ';' || c == ',' {
                match resolve_escapes(s.skip(2)) {
                    Ok(r) => Ok(seq![c].add(r)),
                    Err(e) => Err(e),
                }
            } else if c == 'n' || c == 'N' {
                match resolve_escapes(s.skip(2)) {
                    Ok(r) => Ok(seq!['\n'].add(r)),
                    Err(e) => Err(e),
                }
            } else {
                Err(err_invalid_escape())
            }
        }
    } else {
        match resolve_escapes(s.drop_first()) {
            Ok(r) => Ok(seq![s[0]].add(r)),
            Err(e) => Err(e),
        }
    }
}

/// Tokenizing one unfolded logical line into a content line.
pub open spec fn tokenize(l: Seq<char>) -> Result<ContentLineV, ErrV> {
    match find_value_sep(l, false) {
        None => Err(err_no_separator()),
        Some(i) => {
            let segs = split_params(l.take(i));
            if !is_token(segs[0]) {
                Err(err_invalid_name())
            } else {
                match lex_params(segs.drop_first()) {
                    Err(e) => Err(e),
                    Ok(ps) => match resolve_escapes(l.skip(i + 1)) {
                        Err(e) => Err(e),
                        Ok(v) => Ok(ContentLineV { name: segs[0], params: ps, value: v }),
                    },
                }
            }
        },
    }
}

/// Finds the first `:` outside double quotes in the line.
fn find_sep(l: &Vec<char>) -> (r: Option<usize>)
    ensures
        match r {
            Some(i) => find_value_sep(l@, false) == Some(i as int) && i < l@.len(),
            None => find_value_sep(l@, false) is None,
        },
{
    let mut i: usize = 0;
    let mut q: bool = false;
    proof {
        assert(l@.skip(0) =~= l@);
    }
    while i < l.len()
        invariant
            i <= l@.len(),
            find_value_sep(l@, false) == match find_value_sep(l@.skip(i as int), q) {
                None => None::<int>,
                Some(j) => Some(i + j),
            },
        decreases l@.len() - i,
    {
        proof {
            assert(l@.skip(i as int)[0] == l@[i as int]);
            assert(l@.skip(i as int).drop_first() =~= l@.skip(i + 1 as int));
        }
        let c = l[i];
        if !q && c == ':' {
            return Some(i);
        }
        if c == '"' {
            q = !q;
        }
        i = i + 1;
    }
    proof {
        assert(l@.skip(l@.len() as int).len() == 0);
    }
    None
}

/// Splits the name-and-parameters part on every `;` outside double quotes.
fn split_segments(head: &Vec<char>) -> (r: Vec<Vec<char>>)
    ensures
        lines_view(r@) == split_params(head@),
        r@.len() >= 1,
{
    let mut segs: Vec<Vec<char>> = Vec::new();
    let mut cur: Vec<char> = Vec::new();
    let mut q: bool = false;
    let mut i: usize = 0;
    proof {
        assert(head@.skip(0) =~= head@);
    }
    while i < head.len()
        invariant
            i <= head@.len(),
            split_params(head@) == lines_view(segs@).add(
                split_params_rec(head@.skip(i as int), cur@, q),
            ),
        decreases head@.len() - i,
    {
        proof {
            assert(head@.skip(i as int)[0] == head@[i as int]);
            assert(head@.skip(i as int).drop_first() =~= head@.skip(i + 1 as int));
        }
        let c = head[i];
        if !q && c == ';' {
            segs.push(cur);
            cur = Vec::new();
            proof {
                assert(lines_view(segs@) =~= lines_view(segs@.drop_last()).add(
                    seq![segs@.last()@],
                ));
                assert(lines_view(segs@.drop_last()).add(
                    seq![segs@.last()@].add(
                        split_params_rec(head@.skip(i + 1 as int), cur@, q),
                    ),
                ) =~= lines_view(segs@).add(split_params_rec(head@.skip(i + 1 as int), cur@, q)));
            }
        } else {
            if c == '"' {
                q = !q;
            }
            cur.push(c);
        }
        i = i + 1;
    }
    proof {
        assert(head@.skip(head@.len() as int).len() == 0);
    }
    segs.push(cur);
    proof {
        assert(lines_view(segs@) =~= lines_view(segs@.drop_last()).add(seq![segs@.last()@]));
    }
    segs
}

/// Resolves backslash escapes in raw value text given as characters.
pub(crate) fn resolve_escapes_vec(v: &Vec<char>) -> (r: Result<Vec<char>, ParserError>)
    ensures
        match r {
            Ok(t) => resolve_escapes(v@) == Ok::<Seq<char>, ErrV>(t@),
            Err(e) => resolve_escapes(v@) == Err::<Seq<char>, ErrV>(e@),
        },
{
    let mut out: Vec<char> = Vec::new();
    let mut i: usize = 0;
    proof {
        assert(v@.skip(0) =~= v@);
    }
    while i < v.len()
        invariant
            i <= v@.len(),
            resolve_escapes(v@) == match resolve_escapes(v@.skip(i as int)) {
                Ok(t) => Ok::<Seq<char>, ErrV>(out@ + t),
                Err(e) => Err::<Seq<char>, ErrV>(e),
            },
        decreases v@.len() - i,
    {
        proof {
            assert(v@.skip(i as int)[0] == v@[i as int]);
            assert(v@.skip(i as int).drop_first() =~= v@.skip(i + 1 as int));
        }
        let ghost out_old = out@;
        let c = v[i];
        if c == '\\' {
            if i + 1 >= v.len() {
                proof {
                    assert(v@.skip(i as int).len() == 1);
                }
                return Err(ParserError::invalid_escape());
            }
            proof {
                assert(v@.skip(i as int)[1] == v@[i + 1 as int]);
                assert(v@.skip(i as int).skip(2) =~= v@.skip(i + 2 as int));
            }
            let c2 = v[i + 1];
            let rep: char;
            if c2 == '\\' || c2 == ';' || c2 == ',' {
                rep = c2;
            } else if c2 == 'n' || c2 == 'N' {
                rep = '\n';
            } else {
                return Err(ParserError::invalid_escape());
            }
            out.push(rep);
            proof {
                match resolve_escapes(v@.skip(i + 2 as int)) {
                    Ok(t) => {
                        assert(out_old + (seq![rep].add(t)) =~= out@ + t);
                    },
                    Err(_) => {},
                }
            }
            i = i + 2;
        } else {
            out.push(c);
            proof {
                match resolve_escapes(v@.skip(i + 1 as int)) {
                    Ok(t) => {
                        assert(out_old + (seq![c].add(t)) =~= out@ + t);
                    },
                    Err(_) => {},
                }
            }
            i = i + 1;
        }
    }
    proof {
        assert(v@.skip(v@.len() as int).len() == 0);
        assert(out@ + Seq::<char>::empty() =~= out@);
    }
    Ok(out)
}

/// Resolves backslash escapes in raw value text.
pub fn resolve_value_text(raw: &str) -> (r: Result<String, ParserError>)
    ensures
        match r {
            Ok(t) => resolve_escapes(raw@) == Ok::<Seq<char>, ErrV>(t@),
            Err(e) => resolve_escapes(raw@) == Err::<Seq<char>, ErrV>(e@),
        },
{
    let v = str_to_chars(raw);
    match resolve_escapes_vec(&v) {
        Ok(t) => Ok(string_from_chars(&t)),
        Err(e) => Err(e),
    }
}

/// Lexes one parameter segment given as characters.
#[verifier::loop_isolation(false)]
pub(crate) fn lex_param_vec(seg: &Vec<char>) -> (r: Result<Parameter, ParserError>)
    ensures
        match r {
            Ok(p) => lex_param(seg@) == Ok::<ParamV, ErrV>(p@),
            Err(e) => lex_param(seg@) == Err::<ParamV, ErrV>(e@),
        },
{
    let j = match find_char(seg, '=') {
        None => {
            return Err(ParserError::malformed_parameter());
        },
        Some(j) => j,
    };
    let name_chars = subvec(seg, 0, j);
    proof {
        assert(name_chars@ =~= seg@.take(j as int));
    }
    if !check_token(&name_chars) {
        return Err(ParserError::malformed_parameter());
    }
    let n = seg.len();
    let rhs = subvec(seg, j + 1, n);
    proof {
        assert(rhs@ =~= seg@.skip(j + 1 as int));
    }
    let mut values: Vec<String> = Vec::new();
    let mut cur: Vec<char> = Vec::new();
    let mut mode = LexMode::Plain;
    let mut i: usize = 0;
    proof {
        assert(rhs@.skip(0) =~= rhs@);
    }
    while i < rhs.len()
        invariant
            i <= rhs@.len(),
            lex_values(rhs@) == match lex_values_rec(rhs@.skip(i as int), cur@, mode) {
                Ok(vs) => Ok::<Seq<Seq<char>>, ErrV>(strings_view(values@) + vs),
                Err(e) => Err::<Seq<Seq<char>>, ErrV>(e),
            },
        decreases rhs@.len() - i,
    {
        proof {
            assert(rhs@.skip(i as int)[0] == rhs@[i as int]);
            assert(rhs@.skip(i as int).drop_first() =~= rhs@.skip(i + 1 as int));
        }
        let ghost values_old = values@;
        let ghost done = cur@;
        let c = rhs[i];
        match mode {
            LexMode::Plain => {
                if c == '"' && cur.len() == 0 {
                    mode = LexMode::Quoted;
                } else if c == ',' {
                    values.push(string_from_chars(&cur));
                    cur = Vec::new();
                    proof {
                        assert(strings_view(values@) =~= strings_view(values_old).push(done));
                        match lex_values_rec(rhs@.skip(i + 1 as int), cur@, LexMode::Plain) {
                            Ok(vs) => {
                                assert(strings_view(values_old) + (seq![done].add(vs))
                                    =~= strings_view(values@) + vs);
                            },
                            Err(_) => {},
                        }
                    }
                } else {
                    cur.push(c);
                }
            },
            LexMode::Quoted => {
                if c == '"' {
                    mode = LexMode::AfterQuote;
                } else {
                    cur.push(c);
                }
            },
            LexMode::AfterQuote => {
                if c == ',' {
                    values.push(string_from_chars(&cur));
                    cur = Vec::new();
                    mode = LexMode::Plain;
                    proof {
                        assert(strings_view(values@) =~= strings_view(values_old).push(done));
                        match lex_values_rec(rhs@.skip(i + 1 as int), cur@, LexMode::Plain) {
                            Ok(vs) => {
                                assert(strings_view(values_old) + (seq![done].add(vs))
                                    =~= strings_view(values@) + vs);
                            },
                            Err(_) => {},
                        }
                    }
                } else {
                    proof {
                        assert(lex_values_rec(rhs@.skip(i as int), cur@, mode) == Err::<
                            Seq<Seq<char>>,
                            ErrV,
                        >(err_malformed_parameter()));
                        assert(lex_values(rhs@) == Err::<Seq<Seq<char>>, ErrV>(
                            err_malformed_parameter(),
                        ));
                        assert(spec_find(seg@, '=') == Some(j as int));
                        assert(is_token(seg@.take(j as int)));
                        assert(lex_values(seg@.skip(j as int + 1)) == Err::<
                            Seq<Seq<char>>,
                            ErrV,
                        >(err_malformed_parameter()));
                        assert(lex_param(seg@) == Err::<ParamV, ErrV>(
                            err_malformed_parameter(),
                        ));
                    }
                    return Err(ParserError::malformed_parameter());
                }
            },
        }
        i = i + 1;
    }
    proof {
        assert(rhs@.skip(rhs@.len() as int).len() == 0);
    }
    match mode {
        LexMode::Quoted => Err(ParserError::unterminated_quote()),
        _ => {
            let ghost values_old = values@;
            let ghost done = cur@;
            values.push(string_from_chars(&cur));
            proof {
                assert(strings_view(values@) =~= strings_view(values_old).push(done));
                assert(strings_view(values_old) + seq![done] =~= strings_view(values@));
            }
            let ghost vs = strings_view(values@);
            proof {
                assert(lex_values(rhs@) == Ok::<Seq<Seq<char>>, ErrV>(vs));
            }
            let p = Parameter { name: string_from_chars(&name_chars), values };
            proof {
                assert(p@ =~= ParamV { name: seg@.take(j as int), values: vs });
                assert(lex_param(seg@) == Ok::<ParamV, ErrV>(p@));
            }
            Ok(p)
        },
    }
}

/// Parses one `;`-delimited parameter segment of the form
/// `name=value1,value2,...`.
pub fn parse_content_param(segment: &str) -> (r: Result<Parameter, ParserError>)
    ensures
        match r {
            Ok(p) => lex_param(segment@) == Ok::<ParamV, ErrV>(p@),
            Err(e) => lex_param(segment@) == Err::<ParamV, ErrV>(e@),
        },
{
    let v = str_to_chars(segment);
    lex_param_vec(&v)
}

/// Tokenizes one unfolded logical line given as characters.
#[verifier::loop_isolation(false)]
pub(crate) fn parse_content_line_vec(l: &Vec<char>) -> (r: Result<ContentLine, ParserError>)
    ensures
        match r {
            Ok(cl) => tokenize(l@) == Ok::<ContentLineV, ErrV>(cl@),
            Err(e) => tokenize(l@) == Err::<ContentLineV, ErrV>(e@),
        },
{
    let sep = match find_sep(l) {
        None => {
            return Err(ParserError::invalid_no_separator());
        },
        Some(i) => i,
    };
    let head = subvec(l, 0, sep);
    proof {
        assert(head@ =~= l@.take(sep as int));
    }
    let n = l.len();
    let raw_value = subvec(l, sep + 1, n);
    proof {
        assert(raw_value@ =~= l@.skip(sep + 1 as int));
    }
    let segs = split_segments(&head);
    let ghost segviews = split_params(head@);
    proof {
        assert(segs@[0]@ == lines_view(segs@)[0]);
    }
    if !check_token(&segs[0]) {
        return Err(ParserError::invalid_name());
    }
    let mut params: Vec<Parameter> = Vec::new();
    let mut j: usize = 1;
    proof {
        assert(lines_view(segs@).skip(1) =~= segviews.drop_first());
    }
    while j < segs.len()
        invariant
            1 <= j <= segs@.len(),
            segviews == lines_view(segs@),
            lex_params(segviews.drop_first()) == match lex_params(
                lines_view(segs@).skip(j as int),
            ) {
                Ok(ps) => Ok::<Seq<ParamV>, ErrV>(params_view(params@) + ps),
                Err(e) => Err::<Seq<ParamV>, ErrV>(e),
            },
        decreases segs@.len() - j,
    {
        proof {
            assert(lines_view(segs@).skip(j as int)[0] == lines_view(segs@)[j as int]);
            assert(lines_view(segs@).skip(j as int).drop_first() =~= lines_view(segs@).skip(
                j + 1 as int,
            ));
        }
        match lex_param_vec(&segs[j]) {
            Err(e) => {
                proof {
                    assert(lex_params(lines_view(segs@).skip(j as int)) == Err::<
                        Seq<ParamV>,
                        ErrV,
                    >(e@));
                    assert(lex_params(segviews.drop_first()) == Err::<Seq<ParamV>, ErrV>(
                        e@,
                    ));
                    assert(find_value_sep(l@, false) == Some(sep as int));
                    assert(split_params(l@.take(sep as int)) == segviews);
                    assert(is_token(segviews[0]));
                    assert(tokenize(l@) == Err::<ContentLineV, ErrV>(e@));
                }
                return Err(e);
            },
            Ok(p) => {
                let ghost params_old = params@;
                let ghost pv = p@;
                params.push(p);
                proof {
                    assert(params_view(params@) =~= params_view(params_old).push(pv));
                    match lex_params(lines_view(segs@).skip(j + 1 as int)) {
                        Ok(ps) => {
                            assert(params_view(params_old) + (seq![pv].add(ps))
                                =~= params_view(params@) + ps);
                        },
                        Err(_) => {},
                    }
                }
            },
        }
        j = j + 1;
    }
    proof {
        assert(lines_view(segs@).skip(segs@.len() as int).len() == 0);
        assert(params_view(params@) + Seq::<ParamV>::empty() =~= params_view(params@));
    }
    let value_chars = match resolve_escapes_vec(&raw_value) {
        Err(e) => {
            return Err(e);
        },
        Ok(t) => t,
    };
    let cl = ContentLine {
        name: string_from_chars(&segs[0]),
        parameters: params,
        value: string_from_chars(&value_chars),
    };
    proof {
        assert(tokenize(l@) == Ok::<ContentLineV, ErrV>(cl@));
    }
    Ok(cl)
}

proof fn lemma_find_sep_at(l: Seq<char>, k: int)
    requires
        0 <= k < l.len(),
        l[k] == ':',
        forall|i: int| 0 <= i < k ==> l[i] != ':' && l[i] != '"',
    ensures
        find_value_sep(l, false) == Some(k),
    decreases k,
{
    if k == 0 {
    } else {
        assert(forall|i: int|
            0 <= i < k - 1 ==> l.drop_first()[i] != ':' && l.drop_first()[i] != '"');
        lemma_find_sep_at(l.drop_first(), k - 1);
    }
}

proof fn lemma_split_params_plain(s: Seq<char>, cur: Seq<char>)
    requires
        forall|i: int| 0 <= i < s.len() ==> s[i] != ';' && s[i] != '"',
    ensures
        split_params_rec(s, cur, false) == seq![cur + s],
    decreases s.len(),
{
    if s.len() == 0 {
        assert(cur + s =~= cur);
    } else {
        assert(forall|i: int|
            0 <= i < s.drop_first().len() ==> s.drop_first()[i] != ';' && s.drop_first()[i]
                != '"');
        lemma_split_params_plain(s.drop_first(), cur.push(s[0]));
        assert(cur.push(s[0]) + s.drop_first() =~= cur + s);
    }
}

/// Resolving escapes leaves a text without backslashes unchanged.
pub proof fn lemma_resolve_escapes_plain(s: Seq<char>)
    requires
        forall|i: int| 0 <= i < s.len() ==> s[i] != '\\',
    ensures
        resolve_escapes(s) == Ok::<Seq<char>, ErrV>(s),
    decreases s.len(),
{
    if s.len() == 0 {
        assert(s =~= Seq::<char>::empty());
    } else {
        assert(forall|i: int| 0 <= i < s.drop_first().len() ==> s.drop_first()[i] != '\\');
        lemma_resolve_escapes_plain(s.drop_first());
        assert(seq![s[0]].add(s.drop_first()) =~= s);
    }
}

/// Tokenizing a logical line `name + ":" + value`, where `name` is an IANA
/// or vendor token and `value` holds no backslash, yields exactly that name,
/// no parameters, and that value.
pub proof fn lemma_tokenize_plain_line(name: Seq<char>, value: Seq<char>)
    requires
        is_token(name),
        forall|i: int| 0 <= i < value.len() ==> value[i] != '\\',
    ensures
        tokenize(name + seq![':'] + value) == Ok::<ContentLineV, ErrV>(
            ContentLineV { name: name, params: Seq::<ParamV>::empty(), value: value },
        ),
{
    let l = name + seq![':'] + value;
    let k = name.len() as int;
    assert forall|i: int| 0 <= i < k implies l[i] != ':' && l[i] != '"' by {
        assert(l[i] == name[i]);
        assert(is_token_char(name[i]));
    }
    assert(l[k] == ':');
    lemma_find_sep_at(l, k);
    assert(l.take(k) =~= name);
    assert forall|i: int| 0 <= i < name.len() implies name[i] != ';' && name[i] != '"' by {
        assert(is_token_char(name[i]));
    }
    lemma_split_params_plain(name, Seq::<char>::empty());
    assert(Seq::<char>::empty() + name =~= name);
    assert(split_params(l.take(k)) == seq![name]);
    assert(seq![name].drop_first() =~= Seq::<Seq<char>>::empty());
    assert(lex_params(Seq::<Seq<char>>::empty()) == Ok::<Seq<ParamV>, ErrV>(
        Seq::<ParamV>::empty(),
    ));
    assert(l.skip(k + 1) =~= value);
    lemma_resolve_escapes_plain(value);
}

/// Tokenizes one unfolded logical line into a content line.
pub fn parse_content_line(line: &str) -> (r: Result<ContentLine, ParserError>)
    ensures
        match r {
            Ok(cl) => tokenize(line@) == Ok::<ContentLineV, ErrV>(cl@),
            Err(e) => tokenize(line@) == Err::<ContentLineV, ErrV>(e@),
        },
{
    let v = str_to_chars(line);
    parse_content_line_vec(&v)
}

} // verus!
