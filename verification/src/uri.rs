use vstd::prelude::*;

verus! {

/// Append one character to a string.
/// Relies on String::push appending the given char to the end.
#[verifier::external_body]
fn string_push(s: &mut String, c: char)
    ensures
        final(s)@ == old(s)@.push(c),
{
    s.push(c)
}

/// The name under a dynamic route segment: `<name>` or, for a path
/// segment, `<name..>`; anything else is static.
pub open spec fn dynamic_segment_name(s: Seq<char>) -> Option<Seq<char>> {
    if s.len() >= 2 && s[0] == '<' && s[s.len() - 1] == '>' {
        let inner = s.subrange(1, s.len() - 1);
        if inner.len() >= 2 && inner[inner.len() - 1] == '.' && inner[inner.len() - 2] == '.' {
            Option::Some(inner.subrange(0, inner.len() - 2))
        } else {
            Option::Some(inner)
        }
    } else {
        Option::None
    }
}

/// The name under a dynamic route segment, if it is one.
pub fn get_dynamic_segment_name<'a>(segment: &'a str) -> (r: Option<&'a str>)
    ensures
        match r {
            Option::Some(n) => dynamic_segment_name(segment@) == Option::Some(n@),
            Option::None => dynamic_segment_name(segment@) matches None,
        },
{
    let n = segment.unicode_len();
    if n >= 2 && segment.get_char(0) == '<' && segment.get_char(n - 1) == '>' {
        let has_dots = n >= 4 && segment.get_char(n - 2) == '.' && segment.get_char(n - 3) == '.';
        proof {
            let s = segment@;
            let inner = s.subrange(1, s.len() - 1);
            assert(inner.len() == s.len() - 2);
            assert(forall|k: int| 0 <= k < inner.len() ==> inner[k] == s[k + 1]);
        }
        if has_dots {
            let name = segment.substring_char(1, n - 3);
            proof {
                let s = segment@;
                let inner = s.subrange(1, s.len() - 1);
                assert(inner.subrange(0, inner.len() - 2) =~= s.subrange(1, s.len() - 3));
            }
            Some(name)
        } else {
            Some(segment.substring_char(1, n - 1))
        }
    } else {
        None
    }
}

/// The images of a list of strings.
pub open spec fn string_views(s: Seq<String>) -> Seq<Seq<char>> {
    s.map_values(|x: String| x@)
}

/// The part before the first `sep`, and what follows it, if anything.
pub open spec fn split_once(s: Seq<char>, sep: char) -> (Seq<char>, Option<Seq<char>>)
    decreases s.len(),
{
    if s.len() == 0 {
        (Seq::<char>::empty(), Option::None)
    } else if s[0] == sep {
        (Seq::<char>::empty(), Option::Some(s.drop_first()))
    } else {
        let (p, q) = split_once(s.drop_first(), sep);
        (seq![s[0]].add(p), q)
    }
}

/// Split at the first `sep`; the second part is `None` when `sep` does
/// not occur.
fn split_once_exec(s: &str, sep: char) -> (r: (String, Option<String>))
    ensures
        ({
            let (p, q) = split_once(s@, sep);
            r.0@ == p && (match r.1 {
                Option::None => q matches None,
                Option::Some(v) => q == Option::Some(v@),
            })
        }),
    decreases s@.len(),
{
    let n = s.unicode_len();
    if n == 0 {
        (String::new(), None)
    } else {
        let c = s.get_char(0);
        let rest = s.substring_char(1, n);
        proof {
            assert(rest@ =~= s@.drop_first());
        }
        if c == sep {
            (String::new(), Some(rest.to_owned()))
        } else {
            let (p, q) = split_once_exec(rest, sep);
            let mut out = String::new();
            string_push(&mut out, c);
            out.append(p.as_str());
            proof {
                let (sp, _) = split_once(s@, sep);
                assert(out@ =~= sp);
            }
            (out, q)
        }
    }
}

/// The parts of `s` between occurrences of `sep`; splitting the empty
/// string gives one empty part.
pub open spec fn split(s: Seq<char>, sep: char) -> Seq<Seq<char>>
    decreases s.len(),
    via split_decreases
{
    let (p, q) = split_once(s, sep);
    match q {
        Option::None => seq![p],
        Option::Some(rest) => seq![p].add(split(rest, sep)),
    }
}

#[via_fn]
proof fn split_decreases(s: Seq<char>, sep: char) {
    lemma_split_once_shrinks(s, sep);
}

/// Split on every occurrence of `sep`.
pub(crate) fn split_exec(s: &str, sep: char) -> (r: Vec<String>)
    ensures
        string_views(r@) == split(s@, sep),
    decreases s@.len(),
{
    let (p, q) = split_once_exec(s, sep);
    proof {
        lemma_split_once_shrinks(s@, sep);
    }
    match q {
        None => {
            let mut v: Vec<String> = Vec::new();
            v.push(p);
            proof {
                assert(string_views(v@) =~= split(s@, sep));
            }
            v
        },
        Some(rest) => {
            let mut v: Vec<String> = Vec::new();
            v.push(p);
            let mut tail = split_exec(rest.as_str(), sep);
            v.append(&mut tail);
            proof {
                let (sp, sq) = split_once(s@, sep);
                assert(sq == Option::Some(rest@));
                assert(string_views(v@) =~= seq![sp].add(split(rest@, sep)));
            }
            v
        },
    }
}

/// What follows the first separator is shorter than the whole.
proof fn lemma_split_once_shrinks(s: Seq<char>, sep: char)
    ensures
        split_once(s, sep).1 matches Some(rest) ==> rest.len() < s.len(),
    decreases s.len(),
{
    if s.len() > 0 && s[0] != sep {
        lemma_split_once_shrinks(s.drop_first(), sep);
    }
}

/// The parts joined with `sep` between them.
pub open spec fn join(parts: Seq<Seq<char>>, sep: char) -> Seq<char>
    decreases parts.len(),
{
    if parts.len() == 0 {
        Seq::<char>::empty()
    } else if parts.len() == 1 {
        parts[0]
    } else {
        parts[0].push(sep).add(join(parts.drop_first(), sep))
    }
}

/// Join strings with `sep` between them.
fn join_exec(parts: &Vec<String>, from: usize, sep: char) -> (r: String)
    requires
        from <= parts@.len(),
    ensures
        r@ == join(string_views(parts@).skip(from as int), sep),
    decreases parts@.len() - from,
{
    let n = parts.len();
    let ghost views = string_views(parts@);
    if from == n {
        proof {
            assert(views.skip(from as int) =~= Seq::<Seq<char>>::empty());
        }
        String::new()
    } else if from == n - 1 {
        proof {
            assert(views.skip(from as int) =~= seq![views[from as int]]);
        }
        parts[from].clone()
    } else {
        let mut out = parts[from].clone();
        string_push(&mut out, sep);
        let tail = join_exec(parts, from + 1, sep);
        out.append(tail.as_str());
        proof {
            let sub = views.skip(from as int);
            assert(sub.len() >= 2);
            assert(sub[0] == views[from as int]);
            assert(sub.drop_first() =~= views.skip(from as int + 1));
            assert(out@ =~= join(sub, sep));
        }
        out
    }
}

/// The value stored under `name`, scanning the pairs front to back.
pub open spec fn lookup_arg(args: Seq<(Seq<char>, Seq<char>)>, name: Seq<char>) -> Option<
    Seq<char>,
>
    decreases args.len(),
{
    if args.len() == 0 {
        Option::None
    } else if args[0].0 == name {
        Option::Some(args[0].1)
    } else {
        lookup_arg(args.drop_first(), name)
    }
}

/// The images of an argument list.
pub open spec fn args_view(args: Seq<(String, String)>) -> Seq<(Seq<char>, Seq<char>)> {
    args.map_values(|p: (String, String)| (p.0@, p.1@))
}

/// Look a name up among the arguments.
fn lookup_arg_exec(args: &Vec<(String, String)>, from: usize, name: &str) -> (r: Option<String>)
    requires
        from <= args@.len(),
    ensures
        match r {
            Option::None => lookup_arg(args_view(args@).skip(from as int), name@) matches None,
            Option::Some(v) => lookup_arg(args_view(args@).skip(from as int), name@)
                == Option::Some(v@),
        },
    decreases args@.len() - from,
{
    let ghost views = args_view(args@);
    if from == args.len() {
        proof {
            assert(views.skip(from as int) =~= Seq::<(Seq<char>, Seq<char>)>::empty());
        }
        None
    } else {
        proof {
            assert(views.skip(from as int).drop_first() =~= views.skip(from as int + 1));
            assert(views.skip(from as int)[0] == views[from as int]);
        }
        if crate::store::str_eq(args[from].0.as_str(), name) {
            Some(args[from].1.clone())
        } else {
            lookup_arg_exec(args, from + 1, name)
        }
    }
}

/// The error a missing argument raises.
pub open spec fn missing_arg_message(name: Seq<char>) -> Seq<char> {
    "No argument found for "@ + name
}

/// What one path segment becomes: static segments stand, dynamic ones
/// are filled from the arguments, a missing argument is an error.
pub open spec fn fill_segment(seg: Seq<char>, args: Seq<(Seq<char>, Seq<char>)>) -> Result<
    Seq<char>,
    Seq<char>,
> {
    match dynamic_segment_name(seg) {
        Option::None => Result::Ok(seg),
        Option::Some(name) => match lookup_arg(args, name) {
            Option::Some(v) => Result::Ok(v),
            Option::None => Result::Err(missing_arg_message(name)),
        },
    }
}

/// All path segments filled in, stopping at the first missing argument.
pub open spec fn fill_segments(segs: Seq<Seq<char>>, args: Seq<(Seq<char>, Seq<char>)>) -> Result<
    Seq<Seq<char>>,
    Seq<char>,
>
    decreases segs.len(),
{
    if segs.len() == 0 {
        Result::Ok(Seq::<Seq<char>>::empty())
    } else {
        match fill_segment(segs[0], args) {
            Result::Err(m) => Result::Err(m),
            Result::Ok(first) => match fill_segments(segs.drop_first(), args) {
                Result::Err(m) => Result::Err(m),
                Result::Ok(rest) => Result::Ok(seq![first].add(rest)),
            },
        }
    }
}

/// Fill one segment from the arguments.
fn fill_segment_exec(seg: &String, args: &Vec<(String, String)>) -> (r: Result<String, String>)
    ensures
        match r {
            Result::Ok(v) => fill_segment(seg@, args_view(args@)) == Result::<
                Seq<char>,
                Seq<char>,
            >::Ok(v@),
            Result::Err(m) => fill_segment(seg@, args_view(args@)) == Result::<
                Seq<char>,
                Seq<char>,
            >::Err(m@),
        },
{
    match get_dynamic_segment_name(seg.as_str()) {
        None => Ok(seg.clone()),
        Some(name) => {
            proof {
                assert(args_view(args@).skip(0) =~= args_view(args@));
            }
            match lookup_arg_exec(args, 0, name) {
                Some(v) => Ok(v),
                None => {
                    let mut m = String::from_str("No argument found for ");
                    m.append(name);
                    Err(m)
                },
            }
        },
    }
}

/// Fill all segments from `from` on.
fn fill_segments_exec(segs: &Vec<String>, from: usize, args: &Vec<(String, String)>) -> (r: Result<
    Vec<String>,
    String,
>)
    requires
        from <= segs@.len(),
    ensures
        ({
            let spec_r = fill_segments(
                string_views(segs@).skip(from as int),
                args_view(args@),
            );
            match r {
                Result::Ok(v) => spec_r == Result::<Seq<Seq<char>>, Seq<char>>::Ok(
                    string_views(v@),
                ),
                Result::Err(m) => spec_r == Result::<Seq<Seq<char>>, Seq<char>>::Err(m@),
            }
        }),
    decreases segs@.len() - from,
{
    let ghost views = string_views(segs@);
    if from == segs.len() {
        let empty_out: Vec<String> = Vec::new();
        proof {
            assert(views.skip(from as int) =~= Seq::<Seq<char>>::empty());
            assert(string_views(empty_out@) =~= Seq::<Seq<char>>::empty());
        }
        Ok(empty_out)
    } else {
        proof {
            assert(views.skip(from as int)[0] == views[from as int]);
            assert(views.skip(from as int).drop_first() =~= views.skip(from as int + 1));
        }
        let first = match fill_segment_exec(&segs[from], args) {
            Ok(v) => v,
            Err(m) => {
                return Err(m);
            },
        };
        let ghost firstv = first@;
        let rest = match fill_segments_exec(segs, from + 1, args) {
            Ok(v) => v,
            Err(m) => {
                return Err(m);
            },
        };
        let ghost restv = string_views(rest@);
        let mut out: Vec<String> = Vec::new();
        out.push(first);
        let mut tail = rest;
        out.append(&mut tail);
        proof {
            let av = args_view(args@);
            let sub = views.skip(from as int);
            assert(fill_segment(sub[0], av) == Result::<Seq<char>, Seq<char>>::Ok(firstv));
            assert(sub.drop_first() =~= views.skip(from as int + 1));
            assert(fill_segments(sub.drop_first(), av) == Result::<Seq<Seq<char>>, Seq<char>>::Ok(
                restv,
            ));
            assert(fill_segments(sub, av) == Result::<Seq<Seq<char>>, Seq<char>>::Ok(
                seq![firstv].add(restv),
            ));
            assert(string_views(out@) =~= seq![firstv].add(restv));
        }
        Ok(out)
    }
}

/// What one query part becomes. A part is split at its first `=`;
/// a dynamic key is filled from the arguments, and an empty value
/// leaves a bare key.
pub open spec fn fill_query_part(part: Seq<char>, args: Seq<(Seq<char>, Seq<char>)>) -> Result<
    Seq<char>,
    Seq<char>,
> {
    let (k, v_opt) = split_once(part, '=');
    let v = match v_opt {
        Option::None => Seq::<char>::empty(),
        Option::Some(v) => v,
    };
    match dynamic_segment_name(k) {
        Option::None => if v.len() == 0 {
            Result::Ok(k)
        } else {
            Result::Ok(k.push('=').add(v))
        },
        Option::Some(name) => match lookup_arg(args, name) {
            Option::None => Result::Err(missing_arg_message(name)),
            Option::Some(val) => if val.len() == 0 {
                Result::Ok(name)
            } else {
                Result::Ok(name.push('=').add(val))
            },
        },
    }
}

/// All query parts filled in, stopping at the first missing argument.
pub open spec fn fill_query(parts: Seq<Seq<char>>, args: Seq<(Seq<char>, Seq<char>)>) -> Result<
    Seq<Seq<char>>,
    Seq<char>,
>
    decreases parts.len(),
{
    if parts.len() == 0 {
        Result::Ok(Seq::<Seq<char>>::empty())
    } else {
        match fill_query_part(parts[0], args) {
            Result::Err(m) => Result::Err(m),
            Result::Ok(first) => match fill_query(parts.drop_first(), args) {
                Result::Err(m) => Result::Err(m),
                Result::Ok(rest) => Result::Ok(seq![first].add(rest)),
            },
        }
    }
}

/// Fill one query part from the arguments.
fn fill_query_part_exec(part: &String, args: &Vec<(String, String)>) -> (r: Result<String, String>)
    ensures
        match r {
            Result::Ok(v) => fill_query_part(part@, args_view(args@)) == Result::<
                Seq<char>,
                Seq<char>,
            >::Ok(v@),
            Result::Err(m) => fill_query_part(part@, args_view(args@)) == Result::<
                Seq<char>,
                Seq<char>,
            >::Err(m@),
        },
{
    let (k, v_opt) = split_once_exec(part.as_str(), '=');
    let v = match v_opt {
        None => String::new(),
        Some(v) => v,
    };
    match get_dynamic_segment_name(k.as_str()) {
        None => {
            if v.as_str().unicode_len() == 0 {
                Ok(k)
            } else {
                let mut out = k;
                string_push(&mut out, '=');
                out.append(v.as_str());
                Ok(out)
            }
        },
        Some(name) => {
            proof {
                assert(args_view(args@).skip(0) =~= args_view(args@));
            }
            match lookup_arg_exec(args, 0, name) {
                None => {
                    let mut m = String::from_str("No argument found for ");
                    m.append(name);
                    Err(m)
                },
                Some(val) => {
                    if val.as_str().unicode_len() == 0 {
                        Ok(name.to_owned())
                    } else {
                        let mut out = name.to_owned();
                        string_push(&mut out, '=');
                        out.append(val.as_str());
                        Ok(out)
                    }
                },
            }
        },
    }
}

/// Fill all query parts from `from` on.
fn fill_query_exec(parts: &Vec<String>, from: usize, args: &Vec<(String, String)>) -> (r: Result<
    Vec<String>,
    String,
>)
    requires
        from <= parts@.len(),
    ensures
        ({
            let spec_r = fill_query(
                string_views(parts@).skip(from as int),
                args_view(args@),
            );
            match r {
                Result::Ok(v) => spec_r == Result::<Seq<Seq<char>>, Seq<char>>::Ok(
                    string_views(v@),
                ),
                Result::Err(m) => spec_r == Result::<Seq<Seq<char>>, Seq<char>>::Err(m@),
            }
        }),
    decreases parts@.len() - from,
{
    let ghost views = string_views(parts@);
    if from == parts.len() {
        let empty_out: Vec<String> = Vec::new();
        proof {
            assert(views.skip(from as int) =~= Seq::<Seq<char>>::empty());
            assert(string_views(empty_out@) =~= Seq::<Seq<char>>::empty());
        }
        Ok(empty_out)
    } else {
        proof {
            assert(views.skip(from as int)[0] == views[from as int]);
            assert(views.skip(from as int).drop_first() =~= views.skip(from as int + 1));
        }
        let first = match fill_query_part_exec(&parts[from], args) {
            Ok(v) => v,
            Err(m) => {
                return Err(m);
            },
        };
        let ghost firstv = first@;
        let rest = match fill_query_exec(parts, from + 1, args) {
            Ok(v) => v,
            Err(m) => {
                return Err(m);
            },
        };
        let ghost restv = string_views(rest@);
        let mut out: Vec<String> = Vec::new();
        out.push(first);
        let mut tail = rest;
        out.append(&mut tail);
        proof {
            let av = args_view(args@);
            let sub = views.skip(from as int);
            assert(fill_query_part(sub[0], av) == Result::<Seq<char>, Seq<char>>::Ok(firstv));
            assert(sub.drop_first() =~= views.skip(from as int + 1));
            assert(fill_query(sub.drop_first(), av) == Result::<Seq<Seq<char>>, Seq<char>>::Ok(
                restv,
            ));
            assert(fill_query(sub, av) == Result::<Seq<Seq<char>>, Seq<char>>::Ok(
                seq![firstv].add(restv),
            ));
            assert(string_views(out@) =~= seq![firstv].add(restv));
        }
        Ok(out)
    }
}

/// What a route pattern instantiates to: the path part with every
/// dynamic segment filled in, joined under a leading slash, and the
/// query part, if present, filled in the same way after a question
/// mark. The first missing argument is the error.
pub open spec fn instantiate_uri_spec(uri: Seq<char>, args: Seq<(Seq<char>, Seq<char>)>) -> Result<
    Seq<char>,
    Seq<char>,
> {
    let (path, query) = split_once(uri, '?');
    let path_body = if path.len() > 0 && path[0] == '/' {
        path.drop_first()
    } else {
        path
    };
    match fill_segments(split(path_body, '/'), args) {
        Result::Err(m) => Result::Err(m),
        Result::Ok(segs) => {
            let joined = seq!['/'].add(join(segs, '/'));
            match query {
                Option::None => Result::Ok(joined),
                Option::Some(q) => match fill_query(split(q, '&'), args) {
                    Result::Err(m) => Result::Err(m),
                    Result::Ok(qparts) => Result::Ok(
                        joined.push('?').add(join(qparts, '&')),
                    ),
                },
            }
        },
    }
}

/// Instantiate a route pattern such as `/sheet/<id>/edit?<key>` from
/// named arguments, as the templates' URL helper needs it.
pub fn instantiate_uri(uri: &str, args: &Vec<(String, String)>) -> (r: Result<String, String>)
    ensures
        match r {
            Result::Ok(v) => instantiate_uri_spec(uri@, args_view(args@)) == Result::<
                Seq<char>,
                Seq<char>,
            >::Ok(v@),
            Result::Err(m) => instantiate_uri_spec(uri@, args_view(args@)) == Result::<
                Seq<char>,
                Seq<char>,
            >::Err(m@),
        },
{
    let (path, query) = split_once_exec(uri, '?');
    let plen = path.as_str().unicode_len();
    let path_body = if plen > 0 && path.as_str().get_char(0) == '/' {
        let b = path.as_str().substring_char(1, plen).to_owned();
        proof {
            assert(b@ =~= path@.drop_first());
        }
        b
    } else {
        path
    };
    let segs = split_exec(path_body.as_str(), '/');
    proof {
        assert(string_views(segs@).skip(0) =~= string_views(segs@));
    }
    let filled = match fill_segments_exec(&segs, 0, args) {
        Ok(v) => v,
        Err(m) => {
            return Err(m);
        },
    };
    let ghost filledv = string_views(filled@);
    let mut out = String::new();
    string_push(&mut out, '/');
    let joined = join_exec(&filled, 0, '/');
    out.append(joined.as_str());
    proof {
        assert(filledv.skip(0) =~= filledv);
        assert(out@ =~= seq!['/'].add(join(filledv, '/')));
    }
    match query {
        None => Ok(out),
        Some(q) => {
            let joined_query = match instantiate_query(q.as_str(), args) {
                Ok(v) => v,
                Err(m) => {
                    return Err(m);
                },
            };
            let ghost joinedv = out@;
            string_push(&mut out, '?');
            out.append(joined_query.as_str());
            proof {
                assert(out@ =~= joinedv.push('?').add(joined_query@));
            }
            Ok(out)
        },
    }
}

/// Instantiate the query part of a route pattern: parts split on `&`,
/// dynamic keys filled from the arguments, empty values left as bare
/// keys.
pub fn instantiate_query(query: &str, args: &Vec<(String, String)>) -> (r: Result<String, String>)
    ensures
        ({
            let spec_r = match fill_query(split(query@, '&'), args_view(args@)) {
                Result::Err(m) => Result::<Seq<char>, Seq<char>>::Err(m),
                Result::Ok(parts) => Result::<Seq<char>, Seq<char>>::Ok(join(parts, '&')),
            };
            match r {
                Result::Ok(v) => spec_r == Result::<Seq<char>, Seq<char>>::Ok(v@),
                Result::Err(m) => spec_r == Result::<Seq<char>, Seq<char>>::Err(m@),
            }
        }),
{
    let parts = split_exec(query, '&');
    proof {
        assert(string_views(parts@).skip(0) =~= parts@.map_values(
            |x: String| x@,
        ));
    }
    let filled = match fill_query_exec(&parts, 0, args) {
        Ok(v) => v,
        Err(m) => {
            return Err(m);
        },
    };
    proof {
        assert(string_views(filled@).skip(0) =~= string_views(filled@));
    }
    Ok(join_exec(&filled, 0, '&'))
}

} // verus!
