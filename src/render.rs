//! Rendering a conversation into the text the model reads, through per-role templates.
use vstd::prelude::*;
use crate::chat::{messages_view, Message, MessageView, Role};
use crate::config::TokenizerConfig;
use crate::tool::occurs_at;

verus! {

#[verifier::external_type_specification]
#[verifier::external_body]
pub struct ExTeraError(tera::Error);

/// What a template renders to with `message` bound to the given text; `None` when
/// rendering fails.
pub uninterp spec fn tera_rendered(template: Seq<char>, message: Seq<char>) -> Option<Seq<char>>;

/// A template whose only markup is the placeholder `{{ message }}`: every `{` in it is
/// one of the two that open a placeholder. Such a template has no tag, comment,
/// literal, arithmetic, filter or function call, so rendering it neither reads the
/// environment nor reaches the arithmetic in tera that can panic.
pub open spec fn is_placeholder_template(t: Seq<char>) -> bool {
    forall|i: int|
        0 <= i < t.len() && #[trigger] t[i] == '{' ==> occurs_at(t, "{{ message }}"@, i) || (i
            > 0 && occurs_at(t, "{{ message }}"@, i - 1))
}

fn occurs_in(t: &str, p: &str, i: usize) -> (r: bool)
    ensures
        r == occurs_at(t@, p@, i as int),
{
    let n = t.unicode_len();
    let m = p.unicode_len();
    if i > n || m > n - i {
        return false;
    }
    let mut k: usize = 0;
    while k < m
        invariant
            n == t@.len(),
            m == p@.len(),
            i + m <= n,
            k <= m,
            forall|j: int| 0 <= j < k ==> t@[i + j] == p@[j],
        decreases m - k,
    {
        if t.get_char(i + k) != p.get_char(k) {
            assert(t@.subrange(i as int, i + m)[k as int] != p@[k as int]);
            return false;
        }
        k = k + 1;
    }
    assert(t@.subrange(i as int, i + m) =~= p@);
    true
}

/// Whether a template is placeholder-only.
pub fn placeholder_only(t: &str) -> (r: bool)
    ensures
        r == is_placeholder_template(t@),
{
    let n = t.unicode_len();
    let mut i: usize = 0;
    while i < n
        invariant
            n == t@.len(),
            i <= n,
            forall|j: int|
                0 <= j < i && #[trigger] t@[j] == '{' ==> occurs_at(t@, "{{ message }}"@, j) || (j
                    > 0 && occurs_at(t@, "{{ message }}"@, j - 1)),
        decreases n - i,
    {
        if t.get_char(i) == '{' {
            let opens = occurs_in(t, "{{ message }}", i);
            let closes_pair = i > 0 && occurs_in(t, "{{ message }}", i - 1);
            if !opens && !closes_pair {
                assert(t@[i as int] == '{');
                return false;
            }
        }
        i = i + 1;
    }
    true
}

/// Relies on `tera::Tera::one_off` without autoescaping, with the text bound as
/// `message`. For a placeholder-only template it does not panic, reads no environment,
/// and its outcome depends on the template and the message alone.
#[verifier::external_body]
fn render_one_off(template: &str, message: &str) -> (r: Result<String, tera::Error>)
    requires
        is_placeholder_template(template@),
    ensures
        r is Ok <==> tera_rendered(template@, message@) is Some,
        r is Ok ==> r->Ok_0@ == tera_rendered(template@, message@)->0,
{
    let mut context = tera::Context::new();
    context.insert("message", message);
    tera::Tera::one_off(template, &context, false)
}

/// Whether tera accepts a template's source.
pub uninterp spec fn tera_accepts(template: Seq<char>) -> bool;

/// Relies on `tera::Tera::add_raw_template` on an empty `Tera`: it parses the source
/// and fails when the template is malformed; the outcome depends on the source alone.
#[verifier::external_body]
fn compile_template(template: &str) -> (r: Result<(), tera::Error>)
    ensures
        r is Ok <==> tera_accepts(template@),
{
    let mut tera = tera::Tera::default();
    tera.add_raw_template("template", template)
}

/// Relies on the `Display` of `tera::Error`, a description for people to read.
#[verifier::external_body]
fn error_text(e: &tera::Error) -> (r: String) {
    e.to_string()
}

/// A template that could not be rendered.
#[derive(Clone, Debug, PartialEq, Eq)]
pub struct TemplateError {
    pub message: String,
}

/// Renders a template with `message` bound to the given text.
pub fn render(template: &str, message: &str) -> (r: Result<String, TemplateError>)
    requires
        is_placeholder_template(template@),
    ensures
        r is Ok <==> tera_rendered(template@, message@) is Some,
        r is Ok ==> r->Ok_0@ == tera_rendered(template@, message@)->0,
{
    match render_one_off(template, message) {
        Ok(text) => Ok(text),
        Err(e) => Err(TemplateError { message: error_text(&e) }),
    }
}

/// The per-role templates and the marker that cues the assistant's turn.
#[derive(Clone, Debug, PartialEq, Eq)]
pub struct ChatRenderer {
    pub system_template: String,
    pub user_template: String,
    pub assistant_template: String,
    pub start_completion: String,
}

impl ChatRenderer {
    /// The template for messages of a role.
    pub open spec fn template_for(&self, role: Role) -> Seq<char> {
        match role {
            Role::System => self.system_template@,
            Role::User => self.user_template@,
            Role::Assistant => self.assistant_template@,
        }
    }

    /// Every template is placeholder-only.
    pub open spec fn is_plain(&self) -> bool {
        &&& is_placeholder_template(self.system_template@)
        &&& is_placeholder_template(self.user_template@)
        &&& is_placeholder_template(self.assistant_template@)
    }

    /// The rendered messages, joined; `None` when one of them fails.
    pub open spec fn rendered_all(&self, msgs: Seq<MessageView>) -> Option<Seq<char>>
        decreases msgs.len(),
    {
        if msgs.len() == 0 {
            Some(Seq::empty())
        } else {
            match (
                self.rendered_all(msgs.drop_last()),
                tera_rendered(self.template_for(msgs.last().role), msgs.last().text),
            ) {
                (Some(a), Some(b)) => Some(a + b),
                _ => None,
            }
        }
    }

    proof fn lemma_failure_persists(&self, msgs: Seq<MessageView>, k: int)
        requires
            0 <= k <= msgs.len(),
            self.rendered_all(msgs.subrange(0, k)) is None,
        ensures
            self.rendered_all(msgs) is None,
        decreases msgs.len(),
    {
        if k == msgs.len() {
            assert(msgs.subrange(0, k) =~= msgs);
        } else {
            let init = msgs.drop_last();
            assert(init.subrange(0, k) =~= msgs.subrange(0, k));
            self.lemma_failure_persists(init, k);
        }
    }

    /// The renderer configured for a tokenizer.
    pub fn new(config: &TokenizerConfig) -> (r: ChatRenderer)
        ensures
            r.system_template@ == config.system_template@,
            r.user_template@ == config.user_template@,
            r.assistant_template@ == config.assistant_template@,
            r.start_completion@ == config.start_completion@,
    {
        ChatRenderer {
            system_template: String::from_str(config.system_template.as_str()),
            user_template: String::from_str(config.user_template.as_str()),
            assistant_template: String::from_str(config.assistant_template.as_str()),
            start_completion: String::from_str(config.start_completion.as_str()),
        }
    }

    /// Whether every template is placeholder-only and parses, so that a template that
    /// cannot be used is found before any turn; the user template is parsed first,
    /// then the assistant's, then the system's.
    pub fn check(&self) -> (r: Result<(), TemplateError>)
        ensures
            r is Ok <==> self.is_plain() && tera_accepts(self.user_template@) && tera_accepts(
                self.assistant_template@,
            ) && tera_accepts(self.system_template@),
    {
        if !(placeholder_only(self.user_template.as_str()) && placeholder_only(
            self.assistant_template.as_str(),
        ) && placeholder_only(self.system_template.as_str())) {
            return Err(
                TemplateError {
                    message: String::from_str(
                        "a template may hold no markup but the placeholder {{ message }}",
                    ),
                },
            );
        }
        if let Err(e) = compile_template(self.user_template.as_str()) {
            return Err(TemplateError { message: error_text(&e) });
        }
        if let Err(e) = compile_template(self.assistant_template.as_str()) {
            return Err(TemplateError { message: error_text(&e) });
        }
        if let Err(e) = compile_template(self.system_template.as_str()) {
            return Err(TemplateError { message: error_text(&e) });
        }
        Ok(())
    }

    /// Renders a System message's text.
    pub fn render_system(&self, message: &str) -> (r: Result<String, TemplateError>)
        requires
            self.is_plain(),
        ensures
            r is Ok <==> tera_rendered(self.system_template@, message@) is Some,
            r is Ok ==> r->Ok_0@ == tera_rendered(
                self.system_template@,
                message@,
            )->0,
    {
        render(self.system_template.as_str(), message)
    }

    /// Renders a User message's text.
    pub fn render_user(&self, message: &str) -> (r: Result<String, TemplateError>)
        requires
            self.is_plain(),
        ensures
            r is Ok <==> tera_rendered(self.user_template@, message@) is Some,
            r is Ok ==> r->Ok_0@ == tera_rendered(
                self.user_template@,
                message@,
            )->0,
    {
        render(self.user_template.as_str(), message)
    }

    /// Renders an Assistant message's text.
    pub fn render_assistant(&self, message: &str) -> (r: Result<String, TemplateError>)
        requires
            self.is_plain(),
        ensures
            r is Ok <==> tera_rendered(self.assistant_template@, message@) is Some,
            r is Ok ==> r->Ok_0@ == tera_rendered(
                self.assistant_template@,
                message@,
            )->0,
    {
        render(self.assistant_template.as_str(), message)
    }

    /// Renders one message through the template of its role.
    pub fn render_message(&self, m: &Message) -> (r: Result<String, TemplateError>)
        requires
            self.is_plain(),
        ensures
            r is Ok <==> tera_rendered(self.template_for(m@.role), m@.text) is Some,
            r is Ok ==> r->Ok_0@ == tera_rendered(
                self.template_for(m@.role),
                m@.text,
            )->0,
    {
        match m {
            Message::System { content } => self.render_system(content.as_str()),
            Message::User { content } => self.render_user(content.as_str()),
            Message::Assistant { content } => self.render_assistant(content.as_str()),
        }
    }

    /// The text the model reads for a conversation: each message rendered through
    /// the template of its role, in order, then the start-completion marker. The
    /// first message that fails to render fails the whole.
    pub fn render(&self, messages: &Vec<Message>) -> (r: Result<String, TemplateError>)
        requires
            self.is_plain(),
        ensures
            r is Ok <==> self.rendered_all(messages_view(messages@)) is Some,
            r is Ok ==> r->Ok_0@ == self.rendered_all(
                messages_view(messages@),
            )->0 + self.start_completion@,
    {
        let ghost msgs = messages_view(messages@);
        let mut out = String::new();
        let n = messages.len();
        let mut i: usize = 0;
        while i < n
            invariant
                n == messages@.len(),
                msgs == messages_view(messages@),
                i <= n,
                self.is_plain(),
                self.rendered_all(msgs.subrange(0, i as int)) == Some(out@),
            decreases n - i,
        {
            assert(msgs.subrange(0, i + 1).drop_last() =~= msgs.subrange(0, i as int));
            assert(msgs.subrange(0, i + 1).last() == messages@[i as int]@);
            match self.render_message(&messages[i]) {
                Ok(text) => out.append(text.as_str()),
                Err(e) => {
                    proof {
                        self.lemma_failure_persists(msgs, i + 1);
                    }
                    return Err(e);
                },
            }
            i = i + 1;
        }
        assert(msgs.subrange(0, n as int) =~= msgs);
        out.append(self.start_completion.as_str());
        Ok(out)
    }
}

} // verus!
