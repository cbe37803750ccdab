use vstd::prelude::*;

use crate::candidates::PairModel;
use vstd::std_specs::iter::IteratorSpec;

verus! {

/// The text that rendering `template` gives for the three recognised fields,
/// or `None` where the template is malformed or names another field.
pub uninterp spec fn rendered(
    template: Seq<char>,
    version: Seq<char>,
    os: Seq<char>,
    arch: Seq<char>,
) -> Option<Seq<char>>;

#[verifier::external_type_specification]
#[verifier::external_body]
pub struct ExRenderError(handlebars::RenderError);

/// Whether the template holds no `>`, which every partial call needs. A
/// partial can include itself without end, so templates with one are refused.
pub open spec fn no_partials(template: Seq<char>) -> bool {
    forall|i: int| 0 <= i < template.len() ==> template[i] != '>'
}

/// A character that stands for itself in a template.
pub open spec fn is_literal(c: char) -> bool {
    c != '{' && c != '}' && c != '\\' && c != '>'
}

/// Whether every character of `s` stands for itself.
pub open spec fn plain_text(s: Seq<char>) -> bool {
    forall|i: int| 0 <= i < s.len() ==> is_literal(#[trigger] s[i])
}

/// The tag `{{version}}`.
pub open spec fn version_tag() -> Seq<char> {
    seq!['{', '{', 'v', 'e', 'r', 's', 'i', 'o', 'n', '}', '}']
}

/// The tag `{{os}}`.
pub open spec fn os_tag() -> Seq<char> {
    seq!['{', '{', 'o', 's', '}', '}']
}

/// The tag `{{arch}}`.
pub open spec fn arch_tag() -> Seq<char> {
    seq!['{', '{', 'a', 'r', 'c', 'h', '}', '}']
}

/// Whether `t` begins with `tag`.
pub open spec fn starts_with(t: Seq<char>, tag: Seq<char>) -> bool {
    t.len() >= tag.len() && t.take(tag.len() as int) == tag
}

/// The text a template made only of plain text and the tags `{{version}}`,
/// `{{os}}` and `{{arch}}` renders to: each tag replaced by its value verbatim.
/// `None` for any other template.
pub open spec fn expand(t: Seq<char>, version: Seq<char>, os: Seq<char>, arch: Seq<char>) -> Option<
    Seq<char>,
>
    decreases t.len(),
{
    if t.len() == 0 {
        Some(seq![])
    } else {
        let (value, used) = if starts_with(t, version_tag()) {
            (version, version_tag().len())
        } else if starts_with(t, os_tag()) {
            (os, os_tag().len())
        } else if starts_with(t, arch_tag()) {
            (arch, arch_tag().len())
        } else if is_literal(t[0]) {
            (seq![t[0]], 1nat)
        } else {
            (seq![], 0nat)
        };
        if used == 0 {
            None
        } else {
            match expand(t.skip(used as int), version, os, arch) {
                Some(rest) => Some(value + rest),
                None => None,
            }
        }
    }
}

proof fn lemma_join_no_partials(t: Seq<char>, n: int)
    requires
        0 < n <= t.len(),
        no_partials(t.take(n)),
        no_partials(t.skip(n)),
    ensures
        no_partials(t),
{
    assert forall|i: int| 0 <= i < t.len() implies t[i] != '>' by {
        if i < n {
            assert(t[i] == t.take(n)[i]);
        } else {
            assert(t[i] == t.skip(n)[i - n]);
        }
    }
}

/// A template that `expand` accepts holds no partial call.
pub proof fn lemma_expand_no_partials(t: Seq<char>, version: Seq<char>, os: Seq<char>, arch: Seq<char>)
    ensures
        expand(t, version, os, arch) is Some ==> no_partials(t),
    decreases t.len(),
{
    if t.len() > 0 && expand(t, version, os, arch) is Some {
        assert(no_partials(version_tag()));
        assert(no_partials(os_tag()));
        assert(no_partials(arch_tag()));
        let n: int = if starts_with(t, version_tag()) {
            version_tag().len() as int
        } else if starts_with(t, os_tag()) {
            os_tag().len() as int
        } else if starts_with(t, arch_tag()) {
            arch_tag().len() as int
        } else {
            assert(t.take(1)[0] == t[0]);
            1
        };
        lemma_expand_no_partials(t.skip(n), version, os, arch);
        lemma_join_no_partials(t, n);
    }
}

proof fn lemma_expand_plain_prefix(x: Seq<char>, y: Seq<char>, version: Seq<char>, os: Seq<char>, arch: Seq<char>)
    requires
        plain_text(x),
    ensures
        expand(x + y, version, os, arch) == (match expand(y, version, os, arch) {
            Some(r) => Some(x + r),
            None => None,
        }),
    decreases x.len(),
{
    let t = x + y;
    if x.len() == 0 {
        assert(t =~= y);
        if let Some(r) = expand(y, version, os, arch) {
            assert(x + r =~= r);
        }
    } else {
        assert(t[0] == x[0] && is_literal(x[0]));
        if starts_with(t, version_tag()) {
            assert(t.take(11)[0] == t[0]);
        }
        if starts_with(t, os_tag()) {
            assert(t.take(6)[0] == t[0]);
        }
        if starts_with(t, arch_tag()) {
            assert(t.take(8)[0] == t[0]);
        }
        let rest = x.skip(1);
        assert(plain_text(rest)) by {
            assert forall|i: int| 0 <= i < rest.len() implies is_literal(#[trigger] rest[i]) by {
                assert(rest[i] == x[i + 1]);
            }
        }
        assert(t.skip(1) =~= rest + y);
        lemma_expand_plain_prefix(rest, y, version, os, arch);
        if let Some(r) = expand(y, version, os, arch) {
            assert(seq![x[0]] + (rest + r) =~= x + r);
        }
    }
}

proof fn lemma_expand_tag(tag: Seq<char>, value: Seq<char>, y: Seq<char>, version: Seq<char>, os: Seq<char>, arch: Seq<char>)
    requires
        (tag == version_tag() && value == version) || (tag == os_tag() && value == os) || (tag
            == arch_tag() && value == arch),
    ensures
        expand(tag + y, version, os, arch) == (match expand(y, version, os, arch) {
            Some(r) => Some(value + r),
            None => None,
        }),
{
    let t = tag + y;
    assert(t.take(tag.len() as int) =~= tag);
    assert(t.skip(tag.len() as int) =~= y);
    assert(t[2] == tag[2]);
    if starts_with(t, version_tag()) {
        assert(t.take(11)[2] == t[2]);
    }
    if starts_with(t, os_tag()) {
        assert(t.take(6)[2] == t[2]);
    }
}

/// Rendering a template of plain text around the tags `{{version}}`, `{{os}}`
/// and `{{arch}}` puts each value in place of its tag verbatim, whatever
/// characters the values hold.
pub proof fn lemma_fields_substituted(
    p1: Seq<char>,
    p2: Seq<char>,
    p3: Seq<char>,
    p4: Seq<char>,
    version: Seq<char>,
    os: Seq<char>,
    arch: Seq<char>,
)
    requires
        plain_text(p1),
        plain_text(p2),
        plain_text(p3),
        plain_text(p4),
    ensures
        expand(
            p1 + (version_tag() + (p2 + (os_tag() + (p3 + (arch_tag() + p4))))),
            version,
            os,
            arch,
        ) == Some(p1 + (version + (p2 + (os + (p3 + (arch + p4)))))),
{
    let (v, o, a) = (version, os, arch);
    assert(expand(seq![], v, o, a) == Some(Seq::<char>::empty()));
    lemma_expand_plain_prefix(p4, seq![], v, o, a);
    assert(p4 + Seq::<char>::empty() =~= p4);
    lemma_expand_tag(arch_tag(), a, p4, v, o, a);
    lemma_expand_plain_prefix(p3, arch_tag() + p4, v, o, a);
    lemma_expand_tag(os_tag(), o, p3 + (arch_tag() + p4), v, o, a);
    lemma_expand_plain_prefix(p2, os_tag() + (p3 + (arch_tag() + p4)), v, o, a);
    lemma_expand_tag(version_tag(), v, p2 + (os_tag() + (p3 + (arch_tag() + p4))), v, o, a);
    lemma_expand_plain_prefix(p1, version_tag() + (p2 + (os_tag() + (p3 + (arch_tag() + p4)))), v, o, a);
}

/// Relies on handlebars::Registry::render_template, in strict mode and with
/// handlebars::no_escape, over the fields `version`, `os` and `arch`: the
/// outcome depends on the four strings alone, and plain text and those three
/// tags render to themselves and to the values verbatim.
#[verifier::external_body]
fn render_link(template: &str, version: &str, os: &str, arch: &str) -> (r: Result<String, handlebars::RenderError>)
    requires
        no_partials(template@),
    ensures
        r is Ok <==> rendered(template@, version@, os@, arch@) is Some,
        r matches Ok(s) ==> s@ == rendered(template@, version@, os@, arch@)->Some_0,
        expand(template@, version@, os@, arch@) is Some ==> (r is Ok && r->Ok_0@ == expand(
            template@,
            version@,
            os@,
            arch@,
        )->Some_0),
{
    let mut reg = handlebars::Handlebars::new();
    reg.set_strict_mode(true);
    reg.register_escape_fn(handlebars::no_escape);
    let values = std::collections::BTreeMap::from([("version", version), ("os", os), ("arch", arch)]);
    reg.render_template(template, &values)
}

/// Why a link template was refused.
pub enum TemplateError {
    /// The template holds a `>`, as a partial call does.
    PartialCall,
    /// The template is malformed or names a field other than `version`, `os`
    /// and `arch`.
    Render(handlebars::RenderError),
}

/// Whether the template holds no `>`.
pub fn has_no_partials(template: &str) -> (r: bool)
    ensures
        r == no_partials(template@),
{
    broadcast use vstd::string::axiom_spec_iter, vstd::string::next_postcondition;

    let mut it = template.chars();
    let ghost mut k: int = 0;
    assert(template@.skip(0) =~= template@);
    loop
        invariant
            0 <= k <= template@.len(),
            it.remaining() == template@.skip(k),
            forall|i: int| 0 <= i < k ==> template@[i] != '>',
        decreases template@.len() - k,
    {
        match it.next() {
            Some(c) => {
                if c == '>' {
                    return false;
                }
                proof {
                    assert(template@.skip(k).drop_first() =~= template@.skip(k + 1));
                    k = k + 1;
                }
            },
            None => {
                return true;
            },
        }
    }
}

/// A rendered link and the alias pair that produced it.
pub struct Candidate {
    pub url: String,
    pub os: String,
    pub arch: String,
}

impl Candidate {
    /// The link, OS alias and architecture alias.
    pub open spec fn model(&self) -> (Seq<char>, Seq<char>, Seq<char>) {
        (self.url@, self.os@, self.arch@)
    }
}

/// The candidate that pair `p` gives, if its link renders.
pub open spec fn candidate_of(template: Seq<char>, version: Seq<char>, p: PairModel) -> Option<
    (Seq<char>, Seq<char>, Seq<char>),
> {
    match rendered(template, version, p.0, p.1) {
        Some(u) => Some((u, p.0, p.1)),
        None => None,
    }
}

/// Whether every pair of `ps` renders.
pub open spec fn all_render(template: Seq<char>, version: Seq<char>, ps: Seq<PairModel>) -> bool {
    forall|k: int| 0 <= k < ps.len() ==> (#[trigger] candidate_of(template, version, ps[k])) is Some
}

/// Renders one link; a template with a `>` is refused unrendered.
pub fn render(template: &str, version: &str, os: &str, arch: &str) -> (r: Result<String, TemplateError>)
    ensures
        !no_partials(template@) ==> r matches Err(TemplateError::PartialCall),
        no_partials(template@) ==> (r is Ok <==> rendered(template@, version@, os@, arch@) is Some),
        r matches Ok(s) ==> s@ == rendered(template@, version@, os@, arch@)->Some_0,
        expand(template@, version@, os@, arch@) matches Some(e) ==> r matches Ok(s) && s@ == e,
{
    proof {
        lemma_expand_no_partials(template@, version@, os@, arch@);
    }
    if !has_no_partials(template) {
        return Err(TemplateError::PartialCall);
    }
    match render_link(template, version, os, arch) {
        Ok(s) => Ok(s),
        Err(e) => Err(TemplateError::Render(e)),
    }
}

/// Checks the template once against the placeholder context
/// `version`/`os`/`arch`, so that a bad template is refused before any
/// candidate is formed.
pub fn check_template(template: &str, version: &str) -> (r: Result<(), TemplateError>)
    ensures
        r is Ok <==> no_partials(template@) && rendered(template@, version@, "os"@, "arch"@) is Some,
        !no_partials(template@) ==> r matches Err(TemplateError::PartialCall),
{
    if !has_no_partials(template) {
        return Err(TemplateError::PartialCall);
    }
    match render_link(template, version, "os", "arch") {
        Ok(_) => Ok(()),
        Err(e) => Err(TemplateError::Render(e)),
    }
}

/// Renders a link for every pair, keeping the order of the pairs.
pub fn render_candidates(template: &str, version: &str, pairs: Vec<(String, String)>) -> (r: Result<
    Vec<Candidate>,
    handlebars::RenderError,
>)
    requires
        no_partials(template@),
    ensures
        r is Ok <==> all_render(template@, version@, pairs.deep_view()),
        r matches Ok(v) ==> v.len() == pairs.len() && forall|k: int|
            0 <= k < v.len() ==> Some(#[trigger] v[k].model()) == candidate_of(
                template@,
                version@,
                pairs.deep_view()[k],
            ),
{
    let ghost pm = pairs.deep_view();
    let mut out: Vec<Candidate> = Vec::new();
    let mut i: usize = 0;
    while i < pairs.len()
        invariant
            i <= pairs.len(),
            no_partials(template@),
            pm == pairs.deep_view(),
            out.len() == i,
            forall|k: int| 0 <= k < i ==> (#[trigger] candidate_of(template@, version@, pm[k])) is Some,
            forall|k: int|
                0 <= k < i ==> Some(#[trigger] out[k].model()) == candidate_of(template@, version@, pm[k]),
        decreases pairs.len() - i,
    {
        let os = &pairs[i].0;
        let arch = &pairs[i].1;
        assert(pm[i as int] == (os@, arch@));
        match render_link(template, version, os.as_str(), arch.as_str()) {
            Ok(url) => {
                out.push(Candidate { url, os: os.clone(), arch: arch.clone() });
            },
            Err(e) => {
                assert(candidate_of(template@, version@, pm[i as int]) is None);
                return Err(e);
            },
        }
        i = i + 1;
    }
    Ok(out)
}

} // verus!
