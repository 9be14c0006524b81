//! Small shared helpers. `%VAR%` expansion takes a lookup function so the
//! planner is testable on any OS with a fixed variable map.

use crate::text::{chars_of, find_char, find_char_from, lemma_find_char, lemma_find_char_at, lemma_find_char_none, push_range, string_of_range};
use vstd::prelude::*;

verus! {

/// Why an expansion failed.
pub enum ExpandFailure {
    /// `%name%` named a variable the lookup does not know.
    Undefined(Seq<char>),
    /// A `%` had no closing `%`.
    Unterminated,
}

/// Expansion of Windows-style `%VAR%` references in `input`, where `env`
/// gives each variable's value: text outside `%..%` is kept, `%%` stands
/// for a literal `%`, and references are resolved left to right.
pub open spec fn expand_spec(input: Seq<char>, env: spec_fn(Seq<char>) -> Option<Seq<char>>) -> Result<
    Seq<char>,
    ExpandFailure,
>
    decreases input.len(),
{
    match find_char(input, '%') {
        None => Ok(input),
        Some(start) => {
            let after = input.skip(start + 1);
            match find_char(after, '%') {
                None => Err(ExpandFailure::Unterminated),
                Some(end) => {
                    let name = after.take(end);
                    let rest = after.skip(end + 1);
                    let piece = if name.len() == 0 {
                        Some(seq!['%'])
                    } else {
                        env(name)
                    };
                    match piece {
                        None => Err(ExpandFailure::Undefined(name)),
                        Some(value) => {
                            proof {
                                lemma_find_char(input, '%');
                                lemma_find_char(after, '%');
                            }
                            match expand_spec(rest, env) {
                                Ok(tail) => Ok(input.take(start) + value + tail),
                                Err(e) => Err(e),
                            }
                        },
                    }
                },
            }
        },
    }
}

/// The message `expand_vars` reports for a failure on `input`.
pub open spec fn expand_failure_message(input: Seq<char>, f: ExpandFailure) -> Seq<char> {
    match f {
        ExpandFailure::Undefined(name) => "undefined variable %"@ + name + "%"@,
        ExpandFailure::Unterminated => "unterminated %VAR% in `"@ + input + "`"@,
    }
}

/// What `expand_vars` returns on `input` when variables resolve through `env`.
pub open spec fn expand_result(input: Seq<char>, env: spec_fn(Seq<char>) -> Option<Seq<char>>) -> Result<
    Seq<char>,
    Seq<char>,
> {
    match expand_spec(input, env) {
        Ok(out) => Ok(out),
        Err(f) => Err(expand_failure_message(input, f)),
    }
}

/// Text without `%` expands to itself.
pub proof fn law_expand_keeps_plain_text(text: Seq<char>, env: spec_fn(Seq<char>) -> Option<Seq<char>>)
    requires
        forall|i: int| 0 <= i < text.len() ==> text[i] != '%',
    ensures
        expand_spec(text, env) == Ok::<Seq<char>, ExpandFailure>(text),
{
    lemma_find_char_none(text, '%');
}

/// The first `%NAME%` reference, after plain text `head`, is replaced by
/// the variable's value and expansion goes on after it; a variable the
/// lookup does not know fails with its name; `%%` stands for one `%`.
pub proof fn law_expand_first_reference(
    head: Seq<char>,
    name: Seq<char>,
    rest: Seq<char>,
    env: spec_fn(Seq<char>) -> Option<Seq<char>>,
)
    requires
        forall|i: int| 0 <= i < head.len() ==> head[i] != '%',
        forall|i: int| 0 <= i < name.len() ==> name[i] != '%',
    ensures
        expand_spec(head + seq!['%'] + name + seq!['%'] + rest, env) == if name.len() == 0 {
            after_prefix(head + seq!['%'], expand_spec(rest, env))
        } else {
            match env(name) {
                None => Err(ExpandFailure::Undefined(name)),
                Some(v) => after_prefix(head + v, expand_spec(rest, env)),
            }
        },
{
    let input = head + seq!['%'] + name + seq!['%'] + rest;
    assert forall|m: int| 0 <= m < head.len() implies input[m] != '%' by {
        assert(input[m] == head[m]);
    }
    assert(input[head.len() as int] == '%');
    lemma_find_char_at(input, '%', head.len() as int);
    let after = input.skip(head.len() as int + 1);
    assert(after =~= name + seq!['%'] + rest);
    assert forall|m: int| 0 <= m < name.len() implies after[m] != '%' by {
        assert(after[m] == name[m]);
    }
    assert(after[name.len() as int] == '%');
    lemma_find_char_at(after, '%', name.len() as int);
    assert(after.take(name.len() as int) =~= name);
    assert(after.skip(name.len() as int + 1) =~= rest);
    assert(input.take(head.len() as int) =~= head);
}

/// `f` answers every name `n` with `env(n@)`.
pub open spec fn lookup_is<F: Fn(&str) -> Option<String>>(
    f: F,
    env: spec_fn(Seq<char>) -> Option<Seq<char>>,
) -> bool {
    forall|n: &str, r: Option<String>| #[trigger] call_ensures(f, (n,), r) ==> r.deep_view() == env(n@)
}

/// The view of a `Result` of strings.
pub open spec fn text_result(r: Result<String, String>) -> Result<Seq<char>, Seq<char>> {
    match r {
        Ok(s) => Ok(s@),
        Err(e) => Err(e@),
    }
}

/// Prepends `prefix` to a successful expansion.
pub open spec fn after_prefix(prefix: Seq<char>, r: Result<Seq<char>, ExpandFailure>) -> Result<
    Seq<char>,
    ExpandFailure,
> {
    match r {
        Ok(tail) => Ok(prefix + tail),
        Err(e) => Err(e),
    }
}

/// `f` may answer `name` with `o`: some call of `f` on a string whose
/// characters are `name` can return `o`.
pub open spec fn may_answer<F: Fn(&str) -> Option<String>>(f: F, name: Seq<char>, o: Option<Seq<char>>) -> bool {
    exists|n: &str, r: Option<String>| #[trigger] call_ensures(f, (n,), r) && n@ == name && r.deep_view() == o
}

/// `res` is a possible expansion of `input` when each reference is looked
/// up by its own call of `f`, left to right: as `expand_spec`, but each
/// lookup may give any answer that `f` can give for that name.
pub open spec fn expand_by<F: Fn(&str) -> Option<String>>(
    input: Seq<char>,
    f: F,
    res: Result<Seq<char>, ExpandFailure>,
) -> bool
    decreases input.len(),
{
    match find_char(input, '%') {
        None => res == Ok::<Seq<char>, ExpandFailure>(input),
        Some(start) => {
            let after = input.skip(start + 1);
            match find_char(after, '%') {
                None => res == Err::<Seq<char>, ExpandFailure>(ExpandFailure::Unterminated),
                Some(end) => {
                    let name = after.take(end);
                    let rest = after.skip(end + 1);
                    proof {
                        lemma_find_char(input, '%');
                        lemma_find_char(after, '%');
                    }
                    if name.len() == 0 {
                        exists|t: Result<Seq<char>, ExpandFailure>|
                            expand_by(rest, f, t) && res == #[trigger] after_prefix(input.take(start) + seq!['%'], t)
                    } else {
                        ||| may_answer(f, name, None) && res == Err::<Seq<char>, ExpandFailure>(
                            ExpandFailure::Undefined(name),
                        )
                        ||| exists|v: Seq<char>, t: Result<Seq<char>, ExpandFailure>|
                            may_answer(f, name, Some(v)) && expand_by(rest, f, t) && res == #[trigger] after_prefix(
                                input.take(start) + v,
                                t,
                            )
                    }
                },
            }
        },
    }
}

/// The text result of an expansion of `input`.
pub open spec fn failure_text(input: Seq<char>, t: Result<Seq<char>, ExpandFailure>) -> Result<Seq<char>, Seq<char>> {
    match t {
        Ok(o) => Ok(o),
        Err(fl) => Err(expand_failure_message(input, fl)),
    }
}

/// `r` is what `expand_vars` can return on `input` with lookup `f`.
pub open spec fn expands_to<F: Fn(&str) -> Option<String>>(input: Seq<char>, f: F, r: Result<Seq<char>, Seq<char>>) -> bool {
    exists|t: Result<Seq<char>, ExpandFailure>| #[trigger] expand_by(input, f, t) && r == failure_text(input, t)
}

proof fn lemma_expand_by_step<F: Fn(&str) -> Option<String>>(
    input: Seq<char>,
    f: F,
    start: int,
    end: int,
    v: Seq<char>,
    t: Result<Seq<char>, ExpandFailure>,
)
    requires
        find_char(input, '%') == Some(start),
        find_char(input.skip(start + 1), '%') == Some(end),
        input.skip(start + 1).take(end).len() == 0 ==> v == seq!['%'],
        input.skip(start + 1).take(end).len() > 0 ==> may_answer(f, input.skip(start + 1).take(end), Some(v)),
        expand_by(input.skip(start + 1).skip(end + 1), f, t),
    ensures
        expand_by(input, f, after_prefix(input.take(start) + v, t)),
{
}

proof fn lemma_after_prefix_twice(a: Seq<char>, b: Seq<char>, t: Result<Seq<char>, ExpandFailure>)
    ensures
        after_prefix(a, after_prefix(b, t)) == after_prefix(a + b, t),
{
    match t {
        Ok(x) => assert(a + (b + x) == a + b + x),
        Err(_) => {},
    }
}

/// Expand Windows-style `%VAR%` references. Unknown variables are an error —
/// silently leaving `%LOCALAPPDATA%` literal in a path would make an action
/// "succeed" against a nonsense location, and we don't do quiet wrongness.
/// Each reference is looked up by its own call of `lookup`, left to right.
#[verifier::rlimit(30)]
pub fn expand_vars<F: Fn(&str) -> Option<String>>(input: &str, lookup: &F) -> (r: Result<String, String>)
    requires
        forall|n: &str| call_requires(*lookup, (n,)),
    ensures
        expands_to(input@, *lookup, text_result(r)),
        forall|env: spec_fn(Seq<char>) -> Option<Seq<char>>|
            #![trigger lookup_is(*lookup, env)]
            lookup_is(*lookup, env) ==> text_result(r) == expand_result(input@, env),
{
    let chars = chars_of(input);
    let mut out = String::new();
    let mut i: usize = 0;
    assert forall|env: spec_fn(Seq<char>) -> Option<Seq<char>>|
        #![trigger lookup_is(*lookup, env)]
        lookup_is(*lookup, env) implies expand_spec(input@, env) == after_prefix(
            out@,
            expand_spec(chars@.skip(i as int), env),
        ) by {
        assert(chars@.skip(0) == chars@);
        match expand_spec(input@, env) {
            Ok(t) => assert(Seq::<char>::empty() + t == t),
            Err(_) => {},
        }
    }
    assert forall|t: Result<Seq<char>, ExpandFailure>| #[trigger]
        expand_by(chars@.skip(i as int), *lookup, t) implies expand_by(input@, *lookup, after_prefix(out@, t)) by {
        assert(chars@.skip(0) == chars@);
        match t {
            Ok(x) => assert(Seq::<char>::empty() + x == x),
            Err(_) => {},
        }
    }
    loop
        invariant
            i <= chars.len(),
            chars@ == input@,
            forall|n: &str| call_requires(*lookup, (n,)),
            forall|env: spec_fn(Seq<char>) -> Option<Seq<char>>|
                #![trigger lookup_is(*lookup, env)]
                lookup_is(*lookup, env) ==> expand_spec(input@, env) == after_prefix(
                    out@,
                    expand_spec(chars@.skip(i as int), env),
                ),
            forall|t: Result<Seq<char>, ExpandFailure>| #[trigger]
                expand_by(chars@.skip(i as int), *lookup, t) ==> expand_by(input@, *lookup, after_prefix(out@, t)),
        decreases chars.len() - i,
    {
        let ghost rest = chars@.skip(i as int);
        let ghost out_before = out@;
        match find_char_from(&chars, '%', i) {
            None => {
                push_range(&mut out, &chars, i, chars.len());
                assert(chars@.subrange(i as int, chars.len() as int) == rest);
                proof {
                    assert(expand_by(rest, *lookup, Ok(rest)));
                    assert(expand_by(input@, *lookup, Ok(out@)));
                    assert(text_result(Ok::<String, String>(out)) == failure_text(input@, Ok(out@)));
                }
                return Ok(out);
            },
            Some(start) => {
                push_range(&mut out, &chars, i, start);
                let ghost after = rest.skip(start - i + 1);
                assert(after == chars@.skip(start + 1));
                assert(rest.take(start - i) == chars@.subrange(i as int, start as int));
                match find_char_from(&chars, '%', start + 1) {
                    None => {
                        let mut msg = String::from_str("unterminated %VAR% in `");
                        msg.append(input);
                        msg.append("`");
                        proof {
                            let t = Err::<Seq<char>, ExpandFailure>(ExpandFailure::Unterminated);
                            assert(expand_by(rest, *lookup, t));
                            assert(after_prefix(out_before, t) == t);
                            assert(expand_by(input@, *lookup, t));
                            assert(text_result(Err::<String, String>(msg)) == failure_text(input@, t));
                        }
                        return Err(msg);
                    },
                    Some(end) => {
                        let ghost name_s = after.take(end - start - 1);
                        assert(name_s == chars@.subrange(start + 1, end as int));
                        assert(after.skip(end - start - 1 + 1) == chars@.skip(end + 1));
                        let ghost out0 = out@;
                        if end == start + 1 {
                            out.push('%');
                            proof {
                                assert forall|env: spec_fn(Seq<char>) -> Option<Seq<char>>|
                                    #![trigger lookup_is(*lookup, env)]
                                    lookup_is(*lookup, env) implies expand_spec(input@, env)
                                        == after_prefix(out@, expand_spec(chars@.skip(end + 1), env)) by {
                                    assert(name_s.len() == 0);
                                    assert(expand_spec(rest, env) == after_prefix(
                                        rest.take(start - i) + seq!['%'],
                                        expand_spec(chars@.skip(end + 1), env),
                                    ));
                                    match expand_spec(chars@.skip(end + 1), env) {
                                        Ok(t) => {
                                            assert(out@ == out0 + seq!['%']);
                                            assert(out0 + (seq!['%'] + t) == out@ + t);
                                            assert(out_before + (rest.take(start - i) + seq!['%'] + t)
                                                == out@ + t);
                                        },
                                        Err(_) => {},
                                    }
                                }
                                assert forall|t: Result<Seq<char>, ExpandFailure>| #[trigger]
                                    expand_by(chars@.skip(end + 1), *lookup, t) implies expand_by(
                                    input@,
                                    *lookup,
                                    after_prefix(out@, t),
                                ) by {
                                    assert(name_s.len() == 0);
                                    let piece = rest.take(start - i) + seq!['%'];
                                    lemma_expand_by_step(rest, *lookup, start - i, end - start - 1, seq!['%'], t);
                                    lemma_after_prefix_twice(out_before, piece, t);
                                    assert(out@ == out_before + piece);
                                }
                            }
                        } else {
                            let name = string_of_range(&chars, start + 1, end);
                            let name_ref = name.as_str();
                            let answer = lookup(name_ref);
                            proof {
                                assert(call_ensures(*lookup, (name_ref,), answer));
                                assert(may_answer(*lookup, name_s, answer.deep_view()));
                            }
                            match answer {
                                None => {
                                    let mut msg = String::from_str("undefined variable %");
                                    msg.append(name.as_str());
                                    msg.append("%");
                                    proof {
                                        let t = Err::<Seq<char>, ExpandFailure>(ExpandFailure::Undefined(name_s));
                                        assert(expand_by(rest, *lookup, t));
                                        assert(after_prefix(out_before, t) == t);
                                        assert(expand_by(input@, *lookup, t));
                                        assert(text_result(Err::<String, String>(msg)) == failure_text(input@, t));
                                    }
                                    return Err(msg);
                                },
                                Some(value) => {
                                    out.append(value.as_str());
                                    proof {
                                        assert forall|env: spec_fn(Seq<char>) -> Option<Seq<char>>|
                                            #![trigger lookup_is(*lookup, env)]
                                            lookup_is(*lookup, env) implies expand_spec(input@, env)
                                                == after_prefix(out@, expand_spec(chars@.skip(end + 1), env)) by {
                                            assert(env(name_s) == Some(value@));
                                            assert(expand_spec(rest, env) == after_prefix(
                                                rest.take(start - i) + value@,
                                                expand_spec(chars@.skip(end + 1), env),
                                            ));
                                            match expand_spec(chars@.skip(end + 1), env) {
                                                Ok(t) => {
                                                    assert(out_before + (rest.take(start - i) + value@ + t)
                                                        == out@ + t);
                                                },
                                                Err(_) => {},
                                            }
                                        }
                                        assert forall|t: Result<Seq<char>, ExpandFailure>| #[trigger]
                                            expand_by(chars@.skip(end + 1), *lookup, t) implies expand_by(
                                            input@,
                                            *lookup,
                                            after_prefix(out@, t),
                                        ) by {
                                            let piece = rest.take(start - i) + value@;
                                            assert(may_answer(*lookup, name_s, Some(value@)));
                                            lemma_expand_by_step(rest, *lookup, start - i, end - start - 1, value@, t);
                                            lemma_after_prefix_twice(out_before, piece, t);
                                            assert(out@ == out_before + piece);
                                        }
                                    }
                                },
                            }
                        }
                        i = end + 1;
                    },
                }
            },
        }
    }
}

} // verus!

verus! {

#[verifier::external_type_specification]
#[verifier::external_body]
pub struct ExSystemTime(std::time::SystemTime);

#[verifier::external_type_specification]
#[verifier::external_body]
pub struct ExSystemTimeError(std::time::SystemTimeError);

/// Calls `std::time::SystemTime::now`. Nothing is stated of the clock's reading.
#[verifier::external_body]
fn clock_now() -> std::time::SystemTime {
    std::time::SystemTime::now()
}

/// What `SystemTime::duration_since(UNIX_EPOCH)` gives for the time `t`:
/// the time elapsed since the epoch, or an error when `t` is earlier.
pub uninterp spec fn unix_offset(t: std::time::SystemTime) -> Result<std::time::Duration, std::time::SystemTimeError>;

/// What `Duration::as_secs` gives for `d`: its whole seconds.
pub uninterp spec fn whole_secs(d: std::time::Duration) -> u64;

/// Calls `SystemTime::duration_since` with the Unix epoch. Its result is a
/// function of the time passed in.
#[verifier::external_body]
fn since_unix_epoch(t: &std::time::SystemTime) -> (r: Result<std::time::Duration, std::time::SystemTimeError>)
    ensures
        r == unix_offset(*t),
{
    t.duration_since(std::time::UNIX_EPOCH)
}

/// Calls `Duration::as_secs`, the whole seconds of `d`.
#[verifier::external_body]
fn whole_seconds(d: &std::time::Duration) -> (r: u64)
    ensures
        r == whole_secs(*d),
{
    d.as_secs()
}

/// Whole seconds of a time elapsed since the epoch, or 0 for an error.
pub open spec fn secs_or_zero_spec(r: Result<std::time::Duration, std::time::SystemTimeError>) -> u64 {
    match r {
        Ok(d) => whole_secs(d),
        Err(_) => 0,
    }
}

/// The whole seconds of the time elapsed since the Unix epoch, or 0 when
/// the clock read earlier than the epoch (`r` is then an error).
pub fn secs_or_zero(r: Result<std::time::Duration, std::time::SystemTimeError>) -> (s: u64)
    ensures
        r is Err ==> s == 0,
        r matches Ok(d) ==> s == whole_secs(d),
{
    match r {
        Ok(d) => whole_seconds(&d),
        Err(_) => 0,
    }
}

/// Seconds since the Unix epoch, or 0 when the clock reads earlier than it.
/// The clock's reading is not stated: the result is that of some time `t`.
pub fn now_unix() -> (s: u64)
    ensures
        exists|t: std::time::SystemTime| s == secs_or_zero_spec(#[trigger] unix_offset(t)),
{
    let t = clock_now();
    secs_or_zero(since_unix_epoch(&t))
}

} // verus!
