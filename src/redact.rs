//! Removal of boilerplate lines from a decoded body, driven by a rule set.
use vstd::prelude::*;

use crate::matcher::{regex_compiles, regex_finds, regex_search};
use crate::text::{
    append_chars, char_vecs_view, chars_of, contains, contains_exec, string_of, strings_view,
};

verus! {

/// The two values that rule templates may refer to.
#[derive(Clone, Debug)]
pub struct RenderContext {
    /// Address of the archive recipient, substituted for `{mail}`.
    pub mail: String,
    /// Four-digit year of the message's `Date` header, substituted for `{year}`.
    pub year: String,
}

/// One removal rule: a line is blanked when it contains one of the rendered exact
/// templates, or when one of the rendered regex templates matches it.
#[derive(Clone, Debug)]
pub struct Rule {
    pub exact: Option<Vec<String>>,
    pub regex: Option<Vec<String>>,
}

/// An ordered group of rules.
#[derive(Clone, Debug)]
pub struct RuleGroup {
    pub rules: Vec<Rule>,
}

/// The ordered rule groups that drive redaction.
#[derive(Clone, Debug)]
pub struct RedactionRuleSet {
    pub groups: Vec<RuleGroup>,
}

/// A rule as its two ordered lists of templates; an absent list is empty.
pub struct RuleModel {
    pub exact: Seq<Seq<char>>,
    pub regex: Seq<Seq<char>>,
}

pub open spec fn templates_view(t: Option<Vec<String>>) -> Seq<Seq<char>> {
    match t {
        Some(v) => strings_view(v@),
        None => Seq::empty(),
    }
}

impl View for Rule {
    type V = RuleModel;

    open spec fn view(&self) -> RuleModel {
        RuleModel { exact: templates_view(self.exact), regex: templates_view(self.regex) }
    }
}

impl View for RuleGroup {
    type V = Seq<RuleModel>;

    open spec fn view(&self) -> Seq<RuleModel> {
        self.rules@.map_values(|r: Rule| r@)
    }
}

impl View for RedactionRuleSet {
    type V = Seq<Seq<RuleModel>>;

    open spec fn view(&self) -> Seq<Seq<RuleModel>> {
        self.groups@.map_values(|g: RuleGroup| g@)
    }
}

pub open spec fn mail_placeholder() -> Seq<char> {
    seq!['{', 'm', 'a', 'i', 'l', '}']
}

pub open spec fn year_placeholder() -> Seq<char> {
    seq!['{', 'y', 'e', 'a', 'r', '}']
}

/// `t` with every `{mail}` and `{year}` replaced, scanning from the left.
pub open spec fn render(t: Seq<char>, mail: Seq<char>, year: Seq<char>) -> Seq<char>
    decreases t.len(),
{
    if t.len() == 0 {
        t
    } else if t.len() >= 6 && t.subrange(0, 6) == mail_placeholder() {
        mail + render(t.subrange(6, t.len() as int), mail, year)
    } else if t.len() >= 6 && t.subrange(0, 6) == year_placeholder() {
        year + render(t.subrange(6, t.len() as int), mail, year)
    } else {
        seq![t[0]] + render(t.subrange(1, t.len() as int), mail, year)
    }
}

/// Substitutes the context's values into a template.
pub fn render_template(t: &Vec<char>, mail: &Vec<char>, year: &Vec<char>) -> (r: Vec<char>)
    ensures
        r@ == render(t@, mail@, year@),
{
    let mail_token: Vec<char> = vec!['{', 'm', 'a', 'i', 'l', '}'];
    let year_token: Vec<char> = vec!['{', 'y', 'e', 'a', 'r', '}'];
    assert(mail_token@ =~= mail_placeholder());
    assert(year_token@ =~= year_placeholder());
    let mut out: Vec<char> = Vec::new();
    let mut i: usize = 0;
    assert(t@.subrange(0, t.len() as int) =~= t@);
    assert(out@ + render(t@, mail@, year@) =~= render(t@, mail@, year@));
    while i < t.len()
        invariant
            i <= t.len(),
            mail_token@ == mail_placeholder(),
            year_token@ == year_placeholder(),
            out@ + render(t@.subrange(i as int, t.len() as int), mail@, year@) == render(
                t@,
                mail@,
                year@,
            ),
        decreases t.len() - i,
    {
        let ghost rest = t@.subrange(i as int, t.len() as int);
        if crate::text::occurs_at_exec(t, &mail_token, i) {
            assert(rest.subrange(0, 6) =~= t@.subrange(i as int, i + 6));
            assert(rest.subrange(6, rest.len() as int) =~= t@.subrange(i + 6, t.len() as int));
            append_chars(&mut out, mail);
            i += 6;
        } else if crate::text::occurs_at_exec(t, &year_token, i) {
            assert(rest.subrange(0, 6) =~= t@.subrange(i as int, i + 6));
            assert(rest.subrange(6, rest.len() as int) =~= t@.subrange(i + 6, t.len() as int));
            proof {
                if rest.len() >= 6 && rest.subrange(0, 6) == mail_placeholder() {
                    assert(rest.subrange(0, 6)[1] == 'm');
                }
            }
            append_chars(&mut out, year);
            i += 6;
        } else {
            proof {
                if rest.len() >= 6 {
                    assert(rest.subrange(0, 6) =~= t@.subrange(i as int, i + 6));
                }
            }
            assert(rest.subrange(1, rest.len() as int) =~= t@.subrange(i + 1, t.len() as int));
            out.push(t[i]);
            i += 1;
        }
    }
    assert(t@.subrange(t.len() as int, t.len() as int) =~= Seq::<char>::empty());
    assert(out@ + Seq::<char>::empty() =~= out@);
    out
}

/// What the rules decide for one line.
pub enum Verdict {
    /// No rule matched: the line stays.
    Keep,
    /// A rule matched: the line is blanked.
    Blank,
    /// A regex template rendered to this pattern, which does not compile, before any match.
    Invalid(Seq<char>),
}

/// The verdict of the first item whose check is not `Keep`, or `Keep`.
pub open spec fn first_verdict<A>(items: Seq<A>, check: spec_fn(A) -> Verdict) -> Verdict
    decreases items.len(),
{
    if items.len() == 0 {
        Verdict::Keep
    } else {
        let before = first_verdict(items.drop_last(), check);
        if before is Keep {
            check(items.last())
        } else {
            before
        }
    }
}

pub open spec fn exact_verdict(t: Seq<char>, line: Seq<char>, ctx: RenderContext) -> Verdict {
    if contains(line, render(t, ctx.mail@, ctx.year@)) {
        Verdict::Blank
    } else {
        Verdict::Keep
    }
}

pub open spec fn regex_verdict(t: Seq<char>, line: Seq<char>, ctx: RenderContext) -> Verdict {
    let p = render(t, ctx.mail@, ctx.year@);
    if !regex_compiles(p) {
        Verdict::Invalid(p)
    } else if regex_finds(p, line) {
        Verdict::Blank
    } else {
        Verdict::Keep
    }
}

pub open spec fn exact_check(line: Seq<char>, ctx: RenderContext) -> spec_fn(Seq<char>) -> Verdict {
    |t: Seq<char>| exact_verdict(t, line, ctx)
}

pub open spec fn regex_check(line: Seq<char>, ctx: RenderContext) -> spec_fn(Seq<char>) -> Verdict {
    |t: Seq<char>| regex_verdict(t, line, ctx)
}

/// A rule tries its exact templates in order, then its regex templates in order.
pub open spec fn rule_verdict(r: RuleModel, line: Seq<char>, ctx: RenderContext) -> Verdict {
    let e = first_verdict(r.exact, exact_check(line, ctx));
    if e is Keep {
        first_verdict(r.regex, regex_check(line, ctx))
    } else {
        e
    }
}

pub open spec fn rule_check(line: Seq<char>, ctx: RenderContext) -> spec_fn(RuleModel) -> Verdict {
    |r: RuleModel| rule_verdict(r, line, ctx)
}

pub open spec fn group_verdict(g: Seq<RuleModel>, line: Seq<char>, ctx: RenderContext) -> Verdict {
    first_verdict(g, rule_check(line, ctx))
}

pub open spec fn group_check(line: Seq<char>, ctx: RenderContext) -> spec_fn(Seq<RuleModel>) -> Verdict {
    |g: Seq<RuleModel>| group_verdict(g, line, ctx)
}

/// The verdict on a line: groups in order, rules in order within a group, first match wins.
pub open spec fn line_verdict(
    rules: Seq<Seq<RuleModel>>,
    line: Seq<char>,
    ctx: RenderContext,
) -> Verdict {
    first_verdict(rules, group_check(line, ctx))
}

/// The line as it leaves the engine under a verdict that is not `Invalid`.
pub open spec fn cleaned_line(line: Seq<char>, v: Verdict) -> Seq<char> {
    if v is Blank {
        Seq::empty()
    } else {
        line
    }
}

/// Every line cleaned in order, or the first invalid pattern met, line by line.
pub open spec fn reduce_spec(
    lines: Seq<Seq<char>>,
    ctx: RenderContext,
    rules: Seq<Seq<RuleModel>>,
) -> Result<Seq<Seq<char>>, Seq<char>>
    decreases lines.len(),
{
    if lines.len() == 0 {
        Ok(Seq::empty())
    } else {
        match reduce_spec(lines.drop_last(), ctx, rules) {
            Err(p) => Err(p),
            Ok(done) => match line_verdict(rules, lines.last(), ctx) {
                Verdict::Invalid(p) => Err(p),
                v => Ok(done.push(cleaned_line(lines.last(), v))),
            },
        }
    }
}

proof fn lemma_first_verdict_step<A>(s: Seq<A>, i: int, check: spec_fn(A) -> Verdict)
    requires
        0 <= i < s.len(),
    ensures
        first_verdict(s.take(i + 1), check) == (if first_verdict(s.take(i), check) is Keep {
            check(s[i])
        } else {
            first_verdict(s.take(i), check)
        }),
{
    assert(s.take(i + 1).drop_last() =~= s.take(i));
}

proof fn lemma_first_verdict_settled<A>(s: Seq<A>, i: int, check: spec_fn(A) -> Verdict)
    requires
        0 <= i <= s.len(),
        !(first_verdict(s.take(i), check) is Keep),
    ensures
        first_verdict(s, check) == first_verdict(s.take(i), check),
    decreases s.len() - i,
{
    if i < s.len() {
        lemma_first_verdict_step(s, i, check);
        lemma_first_verdict_settled(s, i + 1, check);
    } else {
        assert(s.take(i) =~= s);
    }
}

proof fn lemma_first_verdict_all<A>(s: Seq<A>, check: spec_fn(A) -> Verdict)
    ensures
        first_verdict(s.take(s.len() as int), check) == first_verdict(s, check),
{
    assert(s.take(s.len() as int) =~= s);
}

/// The exec form of a verdict.
pub enum Decision {
    Keep,
    Blank,
    Invalid(String),
}

impl View for Decision {
    type V = Verdict;

    open spec fn view(&self) -> Verdict {
        match self {
            Decision::Keep => Verdict::Keep,
            Decision::Blank => Verdict::Blank,
            Decision::Invalid(p) => Verdict::Invalid(p@),
        }
    }
}

/// The prepared characters of a context and a line.
struct LineInput {
    line: String,
    line_chars: Vec<char>,
    mail: Vec<char>,
    year: Vec<char>,
}

fn exact_decision(t: &String, input: &LineInput, ctx: Ghost<RenderContext>) -> (d: Decision)
    requires
        input.line_chars@ == input.line@,
        input.mail@ == ctx@.mail@,
        input.year@ == ctx@.year@,
    ensures
        d@ == exact_verdict(t@, input.line@, ctx@),
{
    let tc = chars_of(t.as_str());
    let rendered = render_template(&tc, &input.mail, &input.year);
    if contains_exec(&input.line_chars, &rendered) {
        Decision::Blank
    } else {
        Decision::Keep
    }
}

fn regex_decision(t: &String, input: &LineInput, ctx: Ghost<RenderContext>) -> (d: Decision)
    requires
        input.line_chars@ == input.line@,
        input.mail@ == ctx@.mail@,
        input.year@ == ctx@.year@,
    ensures
        d@ == regex_verdict(t@, input.line@, ctx@),
{
    let tc = chars_of(t.as_str());
    let rendered = render_template(&tc, &input.mail, &input.year);
    let pattern = string_of(rendered.as_slice());
    match regex_search(pattern.as_str(), input.line.as_str()) {
        None => Decision::Invalid(pattern),
        Some(true) => Decision::Blank,
        Some(false) => Decision::Keep,
    }
}

fn templates_decision(
    templates: &Option<Vec<String>>,
    use_regex: bool,
    input: &LineInput,
    ctx: Ghost<RenderContext>,
) -> (d: Decision)
    requires
        input.line_chars@ == input.line@,
        input.mail@ == ctx@.mail@,
        input.year@ == ctx@.year@,
    ensures
        d@ == first_verdict(
            templates_view(*templates),
            if use_regex {
                regex_check(input.line@, ctx@)
            } else {
                exact_check(input.line@, ctx@)
            },
        ),
{
    let ghost check = if use_regex {
        regex_check(input.line@, ctx@)
    } else {
        exact_check(input.line@, ctx@)
    };
    match templates {
        None => Decision::Keep,
        Some(v) => {
            let ghost s = templates_view(*templates);
            let mut i: usize = 0;
            while i < v.len()
                invariant
                    i <= v.len(),
                    s == strings_view(v@),
                    s == templates_view(*templates),
                    check == (if use_regex {
                        regex_check(input.line@, ctx@)
                    } else {
                        exact_check(input.line@, ctx@)
                    }),
                    input.line_chars@ == input.line@,
                    input.mail@ == ctx@.mail@,
                    input.year@ == ctx@.year@,
                    first_verdict(s.take(i as int), check) is Keep,
                decreases v.len() - i,
            {
                let d = if use_regex {
                    regex_decision(&v[i], input, ctx)
                } else {
                    exact_decision(&v[i], input, ctx)
                };
                proof {
                    assert(s[i as int] == v@[i as int]@);
                    assert(check(s[i as int]) == d@);
                    lemma_first_verdict_step(s, i as int, check);
                }
                if !matches!(d, Decision::Keep) {
                    proof {
                        lemma_first_verdict_settled(s, i + 1, check);
                    }
                    return d;
                }
                i += 1;
            }
            proof {
                lemma_first_verdict_all(s, check);
            }
            Decision::Keep
        },
    }
}

fn rule_decision(r: &Rule, input: &LineInput, ctx: Ghost<RenderContext>) -> (d: Decision)
    requires
        input.line_chars@ == input.line@,
        input.mail@ == ctx@.mail@,
        input.year@ == ctx@.year@,
    ensures
        d@ == rule_verdict(r@, input.line@, ctx@),
{
    let e = templates_decision(&r.exact, false, input, ctx);
    if matches!(e, Decision::Keep) {
        templates_decision(&r.regex, true, input, ctx)
    } else {
        e
    }
}

fn group_decision(g: &RuleGroup, input: &LineInput, ctx: Ghost<RenderContext>) -> (d: Decision)
    requires
        input.line_chars@ == input.line@,
        input.mail@ == ctx@.mail@,
        input.year@ == ctx@.year@,
    ensures
        d@ == group_verdict(g@, input.line@, ctx@),
{
    let ghost check = rule_check(input.line@, ctx@);
    let ghost s = g@;
    let mut i: usize = 0;
    while i < g.rules.len()
        invariant
            i <= g.rules.len(),
            s == g@,
            check == rule_check(input.line@, ctx@),
            input.line_chars@ == input.line@,
            input.mail@ == ctx@.mail@,
            input.year@ == ctx@.year@,
            first_verdict(s.take(i as int), check) is Keep,
        decreases g.rules.len() - i,
    {
        let d = rule_decision(&g.rules[i], input, ctx);
        proof {
            assert(s[i as int] == g.rules@[i as int]@);
            assert(check(s[i as int]) == d@);
            lemma_first_verdict_step(s, i as int, check);
        }
        if !matches!(d, Decision::Keep) {
            proof {
                lemma_first_verdict_settled(s, i + 1, check);
            }
            return d;
        }
        i += 1;
    }
    proof {
        lemma_first_verdict_all(s, check);
    }
    Decision::Keep
}

fn line_decision(
    rules: &RedactionRuleSet,
    input: &LineInput,
    ctx: Ghost<RenderContext>,
) -> (d: Decision)
    requires
        input.line_chars@ == input.line@,
        input.mail@ == ctx@.mail@,
        input.year@ == ctx@.year@,
    ensures
        d@ == line_verdict(rules@, input.line@, ctx@),
{
    let ghost check = group_check(input.line@, ctx@);
    let ghost s = rules@;
    let mut i: usize = 0;
    while i < rules.groups.len()
        invariant
            i <= rules.groups.len(),
            s == rules@,
            check == group_check(input.line@, ctx@),
            input.line_chars@ == input.line@,
            input.mail@ == ctx@.mail@,
            input.year@ == ctx@.year@,
            first_verdict(s.take(i as int), check) is Keep,
        decreases rules.groups.len() - i,
    {
        let d = group_decision(&rules.groups[i], input, ctx);
        proof {
            assert(s[i as int] == rules.groups@[i as int]@);
            assert(check(s[i as int]) == d@);
            lemma_first_verdict_step(s, i as int, check);
        }
        if !matches!(d, Decision::Keep) {
            proof {
                lemma_first_verdict_settled(s, i + 1, check);
            }
            return d;
        }
        i += 1;
    }
    proof {
        lemma_first_verdict_all(s, check);
    }
    Decision::Keep
}

/// A rule set that cannot be applied.
#[derive(Clone, Debug, PartialEq, Eq)]
pub enum RuleError {
    /// A regex template rendered to this pattern, which does not compile.
    InvalidRegex(String),
}

proof fn lemma_reduce_err_settled(
    lines: Seq<Seq<char>>,
    k: int,
    ctx: RenderContext,
    rules: Seq<Seq<RuleModel>>,
)
    requires
        0 <= k <= lines.len(),
        reduce_spec(lines.take(k), ctx, rules) is Err,
    ensures
        reduce_spec(lines, ctx, rules) == reduce_spec(lines.take(k), ctx, rules),
    decreases lines.len() - k,
{
    if k < lines.len() {
        assert(lines.take(k + 1).drop_last() =~= lines.take(k));
        lemma_reduce_err_settled(lines, k + 1, ctx, rules);
    } else {
        assert(lines.take(k) =~= lines);
    }
}

/// Cleans each line: a line that some rule matches becomes empty, every other line stays as
/// it is, in the same order. The first rendered regex that does not compile, met while
/// deciding the lines in order, is reported instead.
pub fn reduce_lines(
    lines: &Vec<String>,
    ctx: &RenderContext,
    rules: &RedactionRuleSet,
) -> (r: Result<Vec<String>, RuleError>)
    ensures
        match r {
            Ok(out) => reduce_spec(strings_view(lines@), *ctx, rules@) == Ok::<
                Seq<Seq<char>>,
                Seq<char>,
            >(strings_view(out@)),
            Err(RuleError::InvalidRegex(p)) => reduce_spec(strings_view(lines@), *ctx, rules@)
                == Err::<Seq<Seq<char>>, Seq<char>>(p@),
        },
{
    let ghost all = strings_view(lines@);
    let mail = chars_of(ctx.mail.as_str());
    let year = chars_of(ctx.year.as_str());
    let mut out: Vec<String> = Vec::new();
    let mut i: usize = 0;
    assert(all.take(0) =~= Seq::<Seq<char>>::empty());
    assert(strings_view(out@) =~= Seq::<Seq<char>>::empty());
    while i < lines.len()
        invariant
            i <= lines.len(),
            all == strings_view(lines@),
            mail@ == ctx.mail@,
            year@ == ctx.year@,
            reduce_spec(all.take(i as int), *ctx, rules@) == Ok::<Seq<Seq<char>>, Seq<char>>(
                strings_view(out@),
            ),
        decreases lines.len() - i,
    {
        let line = lines[i].clone();
        let line_chars = chars_of(line.as_str());
        let input = LineInput { line, line_chars, mail: mail.clone(), year: year.clone() };
        let d = line_decision(rules, &input, Ghost(*ctx));
        proof {
            assert(all.take(i + 1).drop_last() =~= all.take(i as int));
            assert(all.take(i + 1).last() == lines@[i as int]@);
        }
        let ghost done = strings_view(out@);
        match d {
            Decision::Invalid(p) => {
                proof {
                    lemma_reduce_err_settled(all, i + 1, *ctx, rules@);
                }
                return Err(RuleError::InvalidRegex(p));
            },
            Decision::Blank => {
                out.push(String::new());
            },
            Decision::Keep => {
                out.push(input.line);
            },
        }
        assert(strings_view(out@) =~= done.push(out@.last()@));
        i += 1;
    }
    assert(all.take(lines.len() as int) =~= all);
    Ok(out)
}

/// The segments of a text between newlines, carriage returns dropped; there is always at
/// least one segment.
pub open spec fn segments(s: Seq<char>) -> Seq<Seq<char>>
    decreases s.len(),
{
    if s.len() == 0 {
        seq![Seq::empty()]
    } else {
        let prev = segments(s.drop_last());
        let c = s.last();
        if c == '\n' {
            prev.push(Seq::empty())
        } else if c == '\r' {
            prev
        } else {
            prev.update(prev.len() - 1, prev.last().push(c))
        }
    }
}

/// The lines of a text: its segments, without the empty one that follows a final newline.
pub open spec fn split_lines(s: Seq<char>) -> Seq<Seq<char>> {
    let sg = segments(s);
    if sg.last().len() == 0 {
        sg.drop_last()
    } else {
        sg
    }
}

proof fn lemma_segments_nonempty(s: Seq<char>)
    ensures
        segments(s).len() >= 1,
    decreases s.len(),
{
    if s.len() > 0 {
        lemma_segments_nonempty(s.drop_last());
    }
}

/// Splits a text into lines on `\n`, with every `\r` removed; a final newline ends the last
/// line rather than starting an empty one.
pub fn split_body(body: &str) -> (r: Vec<String>)
    ensures
        strings_view(r@) == split_lines(body@),
{
    let chars = chars_of(body);
    let mut done: Vec<Vec<char>> = Vec::new();
    let mut current: Vec<char> = Vec::new();
    let mut i: usize = 0;
    while i < chars.len()
        invariant
            i <= chars.len(),
            chars@ == body@,
            segments(chars@.take(i as int)) == char_vecs_view(done@).push(current@),
        decreases chars.len() - i,
    {
        let c = chars[i];
        let ghost before = chars@.take(i as int);
        proof {
            assert(chars@.take(i + 1).drop_last() =~= before);
            assert(chars@.take(i + 1).last() == c);
        }
        if c == '\n' {
            let finished = current;
            current = Vec::new();
            done.push(finished);
            assert(char_vecs_view(done@) =~= char_vecs_view(done@).drop_last().push(finished@));
        } else if c != '\r' {
            current.push(c);
            let ghost prev = segments(before);
            assert(prev.update(prev.len() - 1, prev.last().push(c)) =~= char_vecs_view(done@).push(
                current@,
            ));
        }
        i += 1;
    }
    assert(chars@.take(chars.len() as int) =~= chars@);
    if current.len() > 0 {
        done.push(current);
    }
    let ghost sg = segments(body@);
    assert(char_vecs_view(done@) =~= split_lines(body@));
    let mut out: Vec<String> = Vec::new();
    let mut j: usize = 0;
    while j < done.len()
        invariant
            j <= done.len(),
            strings_view(out@) == char_vecs_view(done@).take(j as int),
        decreases done.len() - j,
    {
        let ghost before = strings_view(out@);
        let line = string_of(done[j].as_slice());
        out.push(line);
        assert(strings_view(out@) =~= before.push(line@));
        assert(char_vecs_view(done@).take(j + 1) =~= char_vecs_view(done@).take(j as int).push(
            done@[j as int]@,
        ));
        j += 1;
    }
    assert(char_vecs_view(done@).take(done.len() as int) =~= char_vecs_view(done@));
    out
}

/// Splits the body into lines and cleans them with [`reduce_lines`].
pub fn reduce(body: &str, ctx: &RenderContext, rules: &RedactionRuleSet) -> (r: Result<
    Vec<String>,
    RuleError,
>)
    ensures
        match r {
            Ok(out) => reduce_spec(split_lines(body@), *ctx, rules@) == Ok::<
                Seq<Seq<char>>,
                Seq<char>,
            >(strings_view(out@)),
            Err(RuleError::InvalidRegex(p)) => reduce_spec(split_lines(body@), *ctx, rules@)
                == Err::<Seq<Seq<char>>, Seq<char>>(p@),
        },
{
    let lines = split_body(body);
    reduce_lines(&lines, ctx, rules)
}

/// Cleaning succeeds exactly when no line meets an invalid pattern before a match; it then
/// keeps the number and the order of the lines, blanking exactly the lines that a rule
/// matches and leaving the others unchanged.
pub proof fn lemma_reduce_shape(lines: Seq<Seq<char>>, ctx: RenderContext, rules: Seq<Seq<RuleModel>>)
    ensures
        reduce_spec(lines, ctx, rules) is Ok <==> (forall|i: int|
            0 <= i < lines.len() ==> !(line_verdict(rules, lines[i], ctx) is Invalid)),
        reduce_spec(lines, ctx, rules) is Ok ==> {
            let out = reduce_spec(lines, ctx, rules)->Ok_0;
            &&& out.len() == lines.len()
            &&& forall|i: int|
                0 <= i < lines.len() ==> out[i] == cleaned_line(
                    lines[i],
                    line_verdict(rules, lines[i], ctx),
                )
        },
    decreases lines.len(),
{
    if lines.len() > 0 {
        let prev = lines.drop_last();
        lemma_reduce_shape(prev, ctx, rules);
        assert forall|i: int| 0 <= i < prev.len() implies prev[i] == lines[i] by {}
        if reduce_spec(prev, ctx, rules) is Err {
            assert(!(line_verdict(rules, lines[prev.len() - 1], ctx) is Invalid) ==> exists|i: int|
                0 <= i < prev.len() && line_verdict(rules, prev[i], ctx) is Invalid);
        }
    }
}

/// Cleaning the output of a successful cleaning again, with the same rules and context,
/// changes nothing: kept lines still match no rule and blanked lines stay empty. This needs
/// the empty line itself not to meet an invalid pattern first, whenever some line was blanked.
pub proof fn lemma_reduce_idempotent(
    lines: Seq<Seq<char>>,
    ctx: RenderContext,
    rules: Seq<Seq<RuleModel>>,
)
    requires
        reduce_spec(lines, ctx, rules) is Ok,
        line_verdict(rules, Seq::empty(), ctx) is Invalid ==> forall|i: int|
            0 <= i < lines.len() ==> !(line_verdict(rules, lines[i], ctx) is Blank),
    ensures
        reduce_spec(reduce_spec(lines, ctx, rules)->Ok_0, ctx, rules) == reduce_spec(
            lines,
            ctx,
            rules,
        ),
{
    let out = reduce_spec(lines, ctx, rules)->Ok_0;
    lemma_reduce_shape(lines, ctx, rules);
    lemma_reduce_shape(out, ctx, rules);
    assert forall|i: int| 0 <= i < out.len() implies !(line_verdict(
        rules,
        out[i],
        ctx,
    ) is Invalid) && cleaned_line(out[i], line_verdict(rules, out[i], ctx)) == out[i] by {
        if line_verdict(rules, lines[i], ctx) is Blank {
            assert(out[i] == Seq::<char>::empty());
        }
    }
    let again = reduce_spec(out, ctx, rules)->Ok_0;
    assert(again =~= out);
}

/// The lines joined with `\n` between consecutive lines.
pub open spec fn join_lines(lines: Seq<Seq<char>>) -> Seq<char>
    decreases lines.len(),
{
    if lines.len() == 0 {
        Seq::empty()
    } else if lines.len() == 1 {
        lines[0]
    } else {
        join_lines(lines.drop_last()) + seq!['\n'] + lines.last()
    }
}

/// Joins cleaned lines into one document, a newline between consecutive lines.
pub fn join_document(lines: &Vec<String>) -> (r: String)
    ensures
        r@ == join_lines(strings_view(lines@)),
{
    let ghost all = strings_view(lines@);
    let mut out: Vec<char> = Vec::new();
    let mut i: usize = 0;
    while i < lines.len()
        invariant
            i <= lines.len(),
            all == strings_view(lines@),
            out@ == join_lines(all.take(i as int)),
        decreases lines.len() - i,
    {
        let line = chars_of(lines[i].as_str());
        if i > 0 {
            out.push('\n');
        }
        append_chars(&mut out, &line);
        proof {
            assert(all.take(i + 1).drop_last() =~= all.take(i as int));
            if i == 0 {
                assert(out@ =~= all.take(1)[0]);
            }
        }
        i += 1;
    }
    assert(all.take(lines.len() as int) =~= all);
    string_of(out.as_slice())
}

} // verus!
