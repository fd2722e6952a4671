//! Placeholder substitution in commit-message templates.
use vstd::prelude::*;

use crate::config::{Config, Found};
use crate::error::HelperError;

verus! {

/// The placeholders a template may hold.
#[derive(PartialEq, Eq, Structural, Clone, Copy, Debug)]
pub enum Placeholder {
    Message,
    Branch,
    Date,
    Type,
}

/// The values that the placeholders stand for while one message is rendered.
pub struct TemplateContext {
    pub message: String,
    pub branch: String,
    pub date: String,
    pub commit_type: String,
}

/// The text of a placeholder as it is written in a template.
pub open spec fn token(p: Placeholder) -> Seq<char> {
    match p {
        Placeholder::Message => seq!['{', 'm', 'e', 's', 's', 'a', 'g', 'e', '}'],
        Placeholder::Branch => seq!['{', 'b', 'r', 'a', 'n', 'c', 'h', '}'],
        Placeholder::Date => seq!['{', 'd', 'a', 't', 'e', '}'],
        Placeholder::Type => seq!['{', 't', 'y', 'p', 'e', '}'],
    }
}

/// The value bound to a placeholder.
pub open spec fn value(p: Placeholder, ctx: TemplateContext) -> Seq<char> {
    match p {
        Placeholder::Message => ctx.message@,
        Placeholder::Branch => ctx.branch@,
        Placeholder::Date => ctx.date@,
        Placeholder::Type => ctx.commit_type@,
    }
}

/// Whether `t` opens with `p`.
pub open spec fn starts_with(t: Seq<char>, p: Seq<char>) -> bool {
    p.len() <= t.len() && t.subrange(0, p.len() as int) == p
}

/// The placeholder written at the start of `t`, if any.
pub open spec fn placeholder_at(t: Seq<char>) -> Option<Placeholder> {
    if starts_with(t, token(Placeholder::Message)) {
        Some(Placeholder::Message)
    } else if starts_with(t, token(Placeholder::Branch)) {
        Some(Placeholder::Branch)
    } else if starts_with(t, token(Placeholder::Date)) {
        Some(Placeholder::Date)
    } else if starts_with(t, token(Placeholder::Type)) {
        Some(Placeholder::Type)
    } else {
        None
    }
}

/// The rendered template: read from left to right, each placeholder is
/// replaced by its value and every other character is kept. Substituted
/// values are not read again.
pub open spec fn fill(t: Seq<char>, ctx: TemplateContext) -> Seq<char>
    decreases t.len(),
{
    if t.len() == 0 {
        Seq::empty()
    } else {
        match placeholder_at(t) {
            Some(p) => value(p, ctx) + fill(t.skip(token(p).len() as int), ctx),
            None => seq![t[0]] + fill(t.skip(1), ctx),
        }
    }
}

/// The template used for `tag` when no file and no configuration entry
/// gives one.
pub open spec fn default_template_text(tag: Seq<char>) -> Seq<char> {
    tag + ": {message}\n\nbranch: {branch}\ndate: {date}"@
}

/// The template used for `commit_type` when nothing else gives one.
pub fn default_template(commit_type: &str) -> (r: String)
    ensures
        r@ == default_template_text(commit_type@),
{
    let mut r = String::from_str(commit_type);
    r.append(": {message}\n\nbranch: {branch}\ndate: {date}");
    r
}

/// Whether no placeholder is written anywhere in `t`.
pub open spec fn has_no_placeholder(t: Seq<char>) -> bool {
    forall|i: int| 0 <= i < t.len() ==> #[trigger] placeholder_at(t.skip(i)) is None
}

/// A placeholder opens with a brace and holds no other.
proof fn lemma_token_shape(p: Placeholder)
    ensures
        token(p).len() >= 2,
        token(p)[0] == '{',
        forall|j: int| 1 <= j < token(p).len() ==> token(p)[j] != '{',
{
}

/// No two placeholders agree in their second character.
proof fn lemma_tokens_differ(p: Placeholder, q: Placeholder)
    ensures
        p != q ==> token(p)[1] != token(q)[1],
{
}

/// A text that opens with the text of `p` is read as `p`.
proof fn lemma_placeholder_at_token(p: Placeholder, b: Seq<char>)
    ensures
        placeholder_at(token(p) + b) == Some(p),
{
    let x = token(p) + b;
    assert(x.subrange(0, token(p).len() as int) =~= token(p));
    assert(x[1] == token(p)[1]);
    assert forall|q: Placeholder| q != p implies !starts_with(x, token(q)) by {
        lemma_tokens_differ(p, q);
        lemma_token_shape(q);
        if starts_with(x, token(q)) {
            assert(x.subrange(0, token(q).len() as int)[1] == token(q)[1]);
        }
    }
}

/// What stands at the start of a non-empty text does not depend on a brace
/// that follows it.
proof fn lemma_starts_with_before_brace(a: Seq<char>, rest: Seq<char>, q: Placeholder)
    requires
        a.len() > 0,
        rest.len() > 0,
        rest[0] == '{',
    ensures
        starts_with(a + rest, token(q)) == starts_with(a, token(q)),
{
    let t = token(q);
    let x = a + rest;
    lemma_token_shape(q);
    if starts_with(x, t) {
        if t.len() > a.len() {
            assert(x.subrange(0, t.len() as int)[a.len() as int] == t[a.len() as int]);
            assert(x[a.len() as int] == rest[0]);
        }
        assert(a.subrange(0, t.len() as int) =~= x.subrange(0, t.len() as int));
    }
    if starts_with(a, t) {
        assert(x.subrange(0, t.len() as int) =~= a.subrange(0, t.len() as int));
    }
}

proof fn lemma_placeholder_at_before_brace(a: Seq<char>, rest: Seq<char>)
    requires
        a.len() > 0,
        rest.len() > 0,
        rest[0] == '{',
    ensures
        placeholder_at(a + rest) == placeholder_at(a),
{
    lemma_starts_with_before_brace(a, rest, Placeholder::Message);
    lemma_starts_with_before_brace(a, rest, Placeholder::Branch);
    lemma_starts_with_before_brace(a, rest, Placeholder::Date);
    lemma_starts_with_before_brace(a, rest, Placeholder::Type);
}

/// A template in which no placeholder is written renders as itself.
pub proof fn lemma_fill_without_placeholder(t: Seq<char>, ctx: TemplateContext)
    requires
        has_no_placeholder(t),
    ensures
        fill(t, ctx) == t,
    decreases t.len(),
{
    if t.len() > 0 {
        assert(t.skip(0) =~= t);
        assert(placeholder_at(t.skip(0)) is None);
        let r = t.skip(1);
        assert forall|i: int| 0 <= i < r.len() implies #[trigger] placeholder_at(r.skip(i)) is None by {
            assert(r.skip(i) =~= t.skip(i + 1));
            assert(placeholder_at(t.skip(i + 1)) is None);
        }
        lemma_fill_without_placeholder(r, ctx);
        assert(seq![t[0]] + r =~= t);
    }
}

/// Every occurrence of a placeholder is replaced by its value, wherever it
/// stands: the text around it renders as it would alone.
pub proof fn lemma_fill_replaces_placeholder(
    a: Seq<char>,
    p: Placeholder,
    b: Seq<char>,
    ctx: TemplateContext,
)
    ensures
        fill(a + token(p) + b, ctx) == fill(a, ctx) + value(p, ctx) + fill(b, ctx),
    decreases a.len(),
{
    let x = a + token(p) + b;
    lemma_token_shape(p);
    if a.len() == 0 {
        assert(x =~= token(p) + b);
        lemma_placeholder_at_token(p, b);
        assert((token(p) + b).skip(token(p).len() as int) =~= b);
        assert(fill(a, ctx) =~= Seq::<char>::empty());
        assert(fill(a, ctx) + value(p, ctx) + fill(b, ctx) =~= value(p, ctx) + fill(b, ctx));
    } else {
        assert(x =~= a + (token(p) + b));
        lemma_placeholder_at_before_brace(a, token(p) + b);
        match placeholder_at(a) {
            Some(q) => {
                let lq = token(q).len() as int;
                let a2 = a.skip(lq);
                lemma_token_shape(q);
                assert(x.skip(lq) =~= a2 + token(p) + b);
                assert(fill(x, ctx) == value(q, ctx) + fill(x.skip(lq), ctx));
                assert(fill(a, ctx) == value(q, ctx) + fill(a2, ctx));
                lemma_fill_replaces_placeholder(a2, p, b, ctx);
                lemma_concat_assoc(value(q, ctx), fill(a2, ctx), value(p, ctx), fill(b, ctx));
            },
            None => {
                let a2 = a.skip(1);
                assert(x.skip(1) =~= a2 + token(p) + b);
                assert(x[0] == a[0]);
                assert(fill(x, ctx) == seq![a[0]] + fill(x.skip(1), ctx));
                assert(fill(a, ctx) == seq![a[0]] + fill(a2, ctx));
                lemma_fill_replaces_placeholder(a2, p, b, ctx);
                lemma_concat_assoc(seq![a[0]], fill(a2, ctx), value(p, ctx), fill(b, ctx));
            },
        }
    }
}

proof fn lemma_concat_assoc(w: Seq<char>, x: Seq<char>, y: Seq<char>, z: Seq<char>)
    ensures
        w + (x + y + z) == (w + x) + y + z,
{
    assert(w + (x + y + z) =~= (w + x) + y + z);
}

/// Whether `p` is written in `t` at character position `i`.
fn token_at(t: &str, n: usize, i: usize, p: Placeholder) -> (r: bool)
    requires
        n == t@.len(),
        i < n,
    ensures
        r == starts_with(t@.skip(i as int), token(p)),
{
    let tok: &str = match p {
        Placeholder::Message => "{message}",
        Placeholder::Branch => "{branch}",
        Placeholder::Date => "{date}",
        Placeholder::Type => "{type}",
    };
    proof {
        reveal_strlit("{message}");
        reveal_strlit("{branch}");
        reveal_strlit("{date}");
        reveal_strlit("{type}");
        assert(tok@ =~= token(p));
    }
    let m = tok.unicode_len();
    if m > n - i {
        return false;
    }
    let mut k: usize = 0;
    while k < m
        invariant
            m == tok@.len(),
            tok@ == token(p),
            m <= n - i,
            n == t@.len(),
            i < n,
            k <= m,
            forall|j: int| 0 <= j < k ==> t@[i + j] == tok@[j],
        decreases m - k,
    {
        if t.get_char(i + k) != tok.get_char(k) {
            assert(t@.skip(i as int).subrange(0, m as int)[k as int] != token(p)[k as int]);
            return false;
        }
        k = k + 1;
    }
    assert(t@.skip(i as int).subrange(0, m as int) =~= token(p));
    true
}

/// Which placeholder, if any, is written in `t` at character position `i`.
fn placeholder_in(t: &str, n: usize, i: usize) -> (r: Option<Placeholder>)
    requires
        n == t@.len(),
        i < n,
    ensures
        r == placeholder_at(t@.skip(i as int)),
{
    if token_at(t, n, i, Placeholder::Message) {
        Some(Placeholder::Message)
    } else if token_at(t, n, i, Placeholder::Branch) {
        Some(Placeholder::Branch)
    } else if token_at(t, n, i, Placeholder::Date) {
        Some(Placeholder::Date)
    } else if token_at(t, n, i, Placeholder::Type) {
        Some(Placeholder::Type)
    } else {
        None
    }
}

/// Fills the placeholders of `template` with the values of `context`.
pub fn fill_template(template: &str, context: &TemplateContext) -> (r: String)
    ensures
        r@ == fill(template@, *context),
{
    let n = template.unicode_len();
    let mut out = String::new();
    let mut i: usize = 0;
    assert(template@.skip(0) =~= template@);
    assert(out@ + fill(template@, *context) =~= fill(template@, *context));
    while i < n
        invariant
            n == template@.len(),
            i <= n,
            fill(template@, *context) == out@ + fill(template@.skip(i as int), *context),
        decreases n - i,
    {
        let ghost rest = template@.skip(i as int);
        let ghost before = out@;
        match placeholder_in(template, n, i) {
            Some(p) => {
                let v: &str = match p {
                    Placeholder::Message => context.message.as_str(),
                    Placeholder::Branch => context.branch.as_str(),
                    Placeholder::Date => context.date.as_str(),
                    Placeholder::Type => context.commit_type.as_str(),
                };
                let len: usize = match p {
                    Placeholder::Message => 9,
                    Placeholder::Branch => 8,
                    Placeholder::Date => 6,
                    Placeholder::Type => 6,
                };
                assert(len == token(p).len());
                assert(v@ == value(p, *context));
                out.append(v);
                proof {
                    assert(rest.skip(len as int) =~= template@.skip(i + len));
                    assert(before + fill(rest, *context) =~= out@ + fill(template@.skip(i + len), *context));
                }
                i = i + len;
            },
            None => {
                let c = template.substring_char(i, i + 1);
                out.append(c);
                proof {
                    assert(c@ =~= seq![rest[0]]);
                    assert(rest.skip(1) =~= template@.skip(i + 1));
                    assert(before + fill(rest, *context) =~= out@ + fill(template@.skip(i + 1), *context));
                }
                i = i + 1;
            },
        }
    }
    assert(template@.skip(n as int) =~= Seq::<char>::empty());
    out
}

/// The template in force for `tag`: the project's template file if there is
/// one, else the global template file if there is one, else the template the
/// configuration gives for the tag, else the default template of the tag.
/// The first source found decides, its failure included.
pub open spec fn template_resolution(
    tag: Seq<char>,
    project: Found<String>,
    global: Found<String>,
    config: Result<Config, HelperError>,
) -> Result<Seq<char>, HelperError> {
    match project {
        Some(Ok(s)) => Ok(s@),
        Some(Err(e)) => Err(e),
        None => match global {
            Some(Ok(s)) => Ok(s@),
            Some(Err(e)) => Err(e),
            None => match config {
                Err(e) => Err(e),
                Ok(c) => match c.template_of(tag) {
                    Some(t) => Ok(t),
                    None => Ok(default_template_text(tag)),
                },
            },
        },
    }
}

/// The template in force for `commit_type`, given what was found of the
/// project template file, of the global template file, and the configuration.
pub fn load_template(
    commit_type: &str,
    project: Found<String>,
    global: Found<String>,
    config: Result<Config, HelperError>,
) -> (r: Result<String, HelperError>)
    ensures
        match r {
            Ok(s) => template_resolution(commit_type@, project, global, config) == Ok::<
                Seq<char>,
                HelperError,
            >(s@),
            Err(e) => template_resolution(commit_type@, project, global, config) == Err::<
                Seq<char>,
                HelperError,
            >(e),
        },
{
    match project {
        Some(found) => found,
        None => match global {
            Some(found) => found,
            None => match config {
                Err(e) => Err(e),
                Ok(c) => match c.get_commit_template(commit_type) {
                    Some(t) => Ok(t.clone()),
                    None => Ok(default_template(commit_type)),
                },
            },
        },
    }
}

/// A template file of the project decides, whatever the global file and the
/// configuration say.
pub proof fn lemma_project_template_wins(
    tag: Seq<char>,
    text: String,
    global: Found<String>,
    config: Result<Config, HelperError>,
)
    ensures
        template_resolution(tag, Some(Ok(text)), global, config) == Ok::<Seq<char>, HelperError>(
            text@,
        ),
{
}

/// With no template file and no configured template for the tag, the default
/// template of the tag is used.
pub proof fn lemma_default_template_last(tag: Seq<char>, config: Config)
    requires
        config.template_of(tag) is None,
    ensures
        template_resolution(tag, None, None, Ok(config)) == Ok::<Seq<char>, HelperError>(
            default_template_text(tag),
        ),
{
}

/// Relies on chrono's `Local::now` and `format`: the local time now, written
/// as year-month-day hour:minute:second.
#[verifier::external_body]
fn local_timestamp() -> (r: String) {
    chrono::Local::now().format("%Y-%m-%d %H:%M:%S").to_string()
}

impl TemplateContext {
    /// The values for one message, dated now.
    pub fn new(message: &str, branch: &str, commit_type: &str) -> (r: Self)
        ensures
            r.message@ == message@,
            r.branch@ == branch@,
            r.commit_type@ == commit_type@,
    {
        TemplateContext {
            message: String::from_str(message),
            branch: String::from_str(branch),
            date: local_timestamp(),
            commit_type: String::from_str(commit_type),
        }
    }
}

/// The commit message for `commit_type`: the template in force, filled with
/// `message`, `branch`, the tag and the time now.
pub fn render_commit_message(
    commit_type: &str,
    message: &str,
    branch: &str,
    project: Found<String>,
    global: Found<String>,
    config: Result<Config, HelperError>,
) -> (r: Result<String, HelperError>)
    ensures
        match r {
            Ok(s) => {
                &&& template_resolution(commit_type@, project, global, config) is Ok
                &&& exists|ctx: TemplateContext|
                    {
                        &&& ctx.message@ == message@
                        &&& ctx.branch@ == branch@
                        &&& ctx.commit_type@ == commit_type@
                        &&& s@ == #[trigger] fill(
                            template_resolution(commit_type@, project, global, config)->Ok_0,
                            ctx,
                        )
                    }
            },
            Err(e) => template_resolution(commit_type@, project, global, config) == Err::<
                Seq<char>,
                HelperError,
            >(e),
        },
{
    let ghost resolved = template_resolution(commit_type@, project, global, config);
    match load_template(commit_type, project, global, config) {
        Ok(template) => {
            let context = TemplateContext::new(message, branch, commit_type);
            let r = fill_template(template.as_str(), &context);
            assert(resolved->Ok_0 == template@);
            assert(r@ == fill(resolved->Ok_0, context));
            Ok(r)
        },
        Err(e) => Err(e),
    }
}

} // verus!
