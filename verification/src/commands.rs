//! What the commands of the tool decide, apart from what they read and
//! send.

use crate::error::{ApiErrorResponse, N8nError};
use crate::json::{json_string_member, string_member};
use crate::models::connection::{Connection, ConnectionView};
use crate::models::index_model::index_edges;
use crate::models::node::Node;
use crate::models::tag::Tag;
use crate::models::workflow::{canonical_name, TypedWorkflow};
use crate::pagination::HealthResponse;
use crate::parse::{trim_chars, trimmed};
use crate::text::{
    contains_text, contains_text_str, join2, join3, opt_text, starts_with_char, strip_trailing,
    without_trailing,
};
use vstd::prelude::*;
use vstd::string::*;

verus! {

/// Whether an answer to a yes-or-no question says yes: the letter `y`, in
/// either case, with white space around it at will.
pub open spec fn says_yes(answer: Seq<char>) -> bool {
    trimmed(answer) == seq!['y'] || trimmed(answer) == seq!['Y']
}

/// Whether the user confirmed.
pub fn is_yes(answer: &str) -> (r: bool)
    ensures
        r == says_yes(answer@),
{
    let t = trim_chars(answer);
    let r = t.len() == 1 && (t[0] == 'y' || t[0] == 'Y');
    proof {
        if r {
            assert(t@ =~= seq![t@[0]]);
        }
    }
    r
}

/// The address of an API endpoint: the base URL without the slashes at
/// its end, the API prefix, and the path.
pub open spec fn api_url_of(base_url: Seq<char>, path: Seq<char>) -> Seq<char> {
    without_trailing(base_url, '/') + "/api/v1"@ + path
}

/// The address of an API endpoint.
pub fn api_url(base_url: &str, path: &str) -> (r: String)
    ensures
        r@ == api_url_of(base_url@, path@),
{
    let base = strip_trailing(base_url, '/');
    join3(base.as_str(), "/api/v1", path)
}

/// The path with a slash in front, where it has none.
pub open spec fn rooted(path: Seq<char>) -> Seq<char> {
    if path.len() > 0 && path[0] == '/' {
        path
    } else {
        "/"@ + path
    }
}

/// The address at which a workflow is triggered: the production webhook
/// where the workflow is active, the test webhook where it is not.
pub open spec fn webhook_url_of(base_url: Seq<char>, active: bool, path: Seq<char>) -> Seq<char> {
    without_trailing(base_url, '/') + "/webhook"@ + (if active {
        Seq::<char>::empty()
    } else {
        "-test"@
    }) + rooted(path)
}

/// The address at which a workflow is triggered.
pub fn webhook_url(base_url: &str, active: bool, path: &str) -> (r: String)
    ensures
        r@ == webhook_url_of(base_url@, active, path@),
{
    let mut url = strip_trailing(base_url, '/');
    url.append("/webhook");
    if !active {
        url.append("-test");
    }
    if !starts_with_char(path, '/') {
        url.append("/");
    }
    url.append(path);
    assert(url@ =~= webhook_url_of(base_url@, active, path@));
    url
}

/// A node type through which a workflow can be triggered from outside.
pub open spec fn is_webhook_type(node_type: Seq<char>) -> bool {
    contains_text(node_type, "webhook"@) || contains_text(node_type, "formTrigger"@)
}

/// The node at `i` is of a webhook type, and no node before it is.
pub open spec fn is_first_webhook(nodes: Seq<Node>, i: int) -> bool {
    &&& 0 <= i < nodes.len()
    &&& is_webhook_type(nodes[i].node_type@)
    &&& forall|j: int| 0 <= j < i ==> !is_webhook_type((#[trigger] nodes[j]).node_type@)
}

/// The path of a webhook node: the text of its parameter `path`, or else
/// the identifier of the workflow.
pub open spec fn webhook_path_of(node: Node, workflow_id: Seq<char>) -> Seq<char> {
    match json_string_member(node.parameters, "path"@) {
        Some(path) => path,
        None => workflow_id,
    }
}

/// The path under which a webhook node listens.
pub fn webhook_path(node: &Node, workflow_id: &str) -> (r: String)
    ensures
        r@ == webhook_path_of(*node, workflow_id@),
{
    path_or_id(string_member(&node.parameters, "path"), workflow_id)
}

/// The configured path where there is one, else the workflow identifier.
pub fn path_or_id(path: Option<String>, workflow_id: &str) -> (r: String)
    ensures
        r@ == match opt_text(path) {
            Some(p) => p,
            None => workflow_id@,
        },
{
    match path {
        Some(p) => p,
        None => workflow_id.to_owned(),
    }
}

impl TypedWorkflow {
    /// The first node through which the workflow can be triggered from
    /// outside.
    pub fn webhook_node(&self) -> (r: Option<&Node>)
        ensures
            match r {
                Some(node) => exists|i: int|
                    is_first_webhook(self.nodes@, i) && *node == self.nodes@[i],
                None => forall|i: int|
                    0 <= i < self.nodes@.len() ==> !is_webhook_type(
                        (#[trigger] self.nodes@[i]).node_type@,
                    ),
            },
    {
        let mut i: usize = 0;
        while i < self.nodes.len()
            invariant
                i <= self.nodes.len(),
                forall|j: int| 0 <= j < i ==> !is_webhook_type((#[trigger] self.nodes@[j]).node_type@),
            decreases self.nodes.len() - i,
        {
            let kind = self.nodes[i].node_type.as_str();
            if contains_text_str(kind, "webhook") || contains_text_str(kind, "formTrigger") {
                assert(is_first_webhook(self.nodes@, i as int));
                return Some(&self.nodes[i]);
            }
            i += 1;
        }
        None
    }

    /// The connections that start at `from` and lead to `to`, where these
    /// are given; each may be an identifier or a name.
    pub fn connections_between(&self, from: Option<&str>, to: Option<&str>) -> (r: Vec<Connection>)
        ensures
            r.deep_view() == index_edges(self.connections@).filter(
                is_between(
                    match from {
                        Some(f) => Some(canonical_name(self.nodes@, f@)),
                        None => None,
                    },
                    match to {
                        Some(t) => Some(canonical_name(self.nodes@, t@)),
                        None => None,
                    },
                ),
            ),
    {
        let from_name = match from {
            Some(f) => Some(self.canonical(f)),
            None => None,
        };
        let to_name = match to {
            Some(t) => Some(self.canonical(t)),
            None => None,
        };
        let all = self.connections_flat();
        let ghost views = all.deep_view();
        let ghost wanted = is_between(opt_text(from_name), opt_text(to_name));
        let mut out: Vec<Connection> = Vec::new();
        proof {
            views.subrange(0, 0).lemma_filter_len(wanted);
            assert(out.deep_view() =~= views.subrange(0, 0).filter(wanted));
        }
        let mut k: usize = 0;
        while k < all.len()
            invariant
                k <= all.len(),
                views == all.deep_view(),
                wanted == is_between(opt_text(from_name), opt_text(to_name)),
                out.deep_view() == views.subrange(0, k as int).filter(wanted),
            decreases all.len() - k,
        {
            let ghost prev = out.deep_view();
            proof {
                views.subrange(0, k as int).lemma_filter_push(views[k as int], wanted);
                assert(views.subrange(0, k + 1) =~= views.subrange(0, k as int).push(views[k as int]));
                assert(views[k as int] == all@[k as int]@);
            }
            let source_fits = match &from_name {
                Some(f) => all[k].source_node == *f,
                None => true,
            };
            let target_fits = match &to_name {
                Some(t) => all[k].target_node == *t,
                None => true,
            };
            if source_fits && target_fits {
                out.push(all[k].clone());
                assert(out.deep_view() =~= prev.push(views[k as int]));
            }
            k += 1;
        }
        assert(views.subrange(0, k as int) =~= views);
        out
    }

    /// Changes the node that `node_id` stands for: its name, position and
    /// disabled flag, each where given. Where the name changes, the
    /// connections follow. Hands back the name the node has afterwards,
    /// or nothing where `node_id` stands for no node.
    pub fn update_node(
        &mut self,
        node_id: &str,
        name: Option<String>,
        position: Option<(i32, i32)>,
        disabled: Option<bool>,
    ) -> (r: Option<String>)
        ensures
            match crate::models::workflow::resolved(old(self).nodes@, node_id@) {
                Some(i) => {
                    let before = old(self).nodes@[i];
                    let after = node_updated(before, name, position, disabled);
                    &&& final(self).nodes@ == old(self).nodes@.update(i, after)
                    &&& opt_text(r) == Some(after.name@)
                    &&& final(self).connections@ == if before.name@ != after.name@ {
                        crate::models::index_model::index_renamed(
                            old(self).connections@,
                            before.name@,
                            after.name@,
                        )
                    } else {
                        old(self).connections@
                    }
                },
                None => {
                    &&& r is None
                    &&& final(self).nodes@ == old(self).nodes@
                    &&& final(self).connections@ == old(self).connections@
                },
            },
            final(self).id == old(self).id,
            final(self).name == old(self).name,
            final(self).active == old(self).active,
            final(self).settings == old(self).settings,
            final(self).tags == old(self).tags,
            final(self).version_id == old(self).version_id,
    {
        match self.find_node_index(node_id) {
            None => None,
            Some(i) => {
                let old_name = self.nodes[i].name.clone();
                let ghost before = self.nodes@[i as int];
                match name {
                    Some(n) => {
                        self.nodes[i].name = n;
                    },
                    None => {},
                }
                match position {
                    Some((x, y)) => {
                        self.nodes[i].position = crate::models::node::Position { x, y };
                    },
                    None => {},
                }
                match disabled {
                    Some(d) => {
                        self.nodes[i].disabled = d;
                    },
                    None => {},
                }
                assert(self.nodes@[i as int] == node_updated(before, name, position, disabled));
                assert(self.nodes@ =~= old(self).nodes@.update(
                    i as int,
                    node_updated(before, name, position, disabled),
                ));
                let new_name = self.nodes[i].name.clone();
                if old_name != new_name {
                    self.connections.rename_node(old_name.as_str(), new_name.as_str());
                }
                Some(new_name)
            },
        }
    }
}

/// A node with the given changes made.
pub open spec fn node_updated(
    node: Node,
    name: Option<String>,
    position: Option<(i32, i32)>,
    disabled: Option<bool>,
) -> Node {
    Node {
        name: match name {
            Some(n) => n,
            None => node.name,
        },
        position: match position {
            Some((x, y)) => crate::models::node::Position { x, y },
            None => node.position,
        },
        disabled: match disabled {
            Some(d) => d,
            None => node.disabled,
        },
        ..node
    }
}

/// The connections from `from` to `to`, where each given end must fit.
pub open spec fn is_between(from: Option<Seq<char>>, to: Option<Seq<char>>) -> spec_fn(
    ConnectionView,
) -> bool {
    |c: ConnectionView|
        (match from {
            Some(f) => c.source_node == f,
            None => true,
        }) && (match to {
            Some(t) => c.target_node == t,
            None => true,
        })
}

/// A tag is meant by its name or by its identifier.
pub open spec fn tag_is_meant(tag: Tag, wanted: Seq<char>) -> bool {
    tag.name@ == wanted || tag.id@ == wanted
}

/// The tag at `i` is meant, and no tag before it is.
pub open spec fn is_first_meant(tags: Seq<Tag>, wanted: Seq<char>, i: int) -> bool {
    &&& 0 <= i < tags.len()
    &&& tag_is_meant(tags[i], wanted)
    &&& forall|j: int| 0 <= j < i ==> !tag_is_meant(#[trigger] tags[j], wanted)
}

/// Some tag is meant by `wanted`.
pub open spec fn some_tag_meant(tags: Seq<Tag>, wanted: Seq<char>) -> bool {
    exists|i: int| 0 <= i < tags.len() && tag_is_meant(#[trigger] tags[i], wanted)
}

/// The position of the tag that `wanted` means.
pub open spec fn first_meant(tags: Seq<Tag>, wanted: Seq<char>) -> int {
    choose|i: int| is_first_meant(tags, wanted, i)
}

fn find_tag(tags: &Vec<Tag>, wanted: &String) -> (r: Option<usize>)
    ensures
        match r {
            Some(i) => i < tags.len() && first_meant(tags@, wanted@) == i && some_tag_meant(
                tags@,
                wanted@,
            ),
            None => !some_tag_meant(tags@, wanted@),
        },
{
    let mut i: usize = 0;
    while i < tags.len()
        invariant
            i <= tags.len(),
            forall|j: int| 0 <= j < i ==> !tag_is_meant(#[trigger] tags@[j], wanted@),
        decreases tags.len() - i,
    {
        if tags[i].name == *wanted || tags[i].id == *wanted {
            proof {
                assert(is_first_meant(tags@, wanted@, i as int));
                let c = first_meant(tags@, wanted@);
                assert(is_first_meant(tags@, wanted@, c));
                if c < i {
                    assert(!tag_is_meant(tags@[c], wanted@));
                } else if i < c {
                    assert(!tag_is_meant(tags@[i as int], wanted@));
                }
            }
            return Some(i);
        }
        i += 1;
    }
    None
}

/// The first of the texts that means no tag, where there is one.
pub open spec fn is_first_unknown(tags: Seq<Tag>, wanted: Seq<String>, k: int) -> bool {
    &&& 0 <= k < wanted.len()
    &&& !some_tag_meant(tags, wanted[k]@)
    &&& forall|j: int| 0 <= j < k ==> some_tag_meant(tags, (#[trigger] wanted[j])@)
}

/// The identifiers of the tags that are meant, in the order asked for.
/// The first text that means no tag is an error.
pub fn resolve_tag_ids(tags: &Vec<Tag>, wanted: &Vec<String>) -> (r: Result<Vec<String>, N8nError>)
    ensures
        match r {
            Ok(ids) => {
                &&& ids@.len() == wanted@.len()
                &&& forall|k: int|
                    0 <= k < wanted@.len() ==> some_tag_meant(tags@, (#[trigger] wanted@[k])@)
                &&& forall|k: int|
                    0 <= k < wanted@.len() ==> (#[trigger] ids@[k])@ == tags@[first_meant(
                        tags@,
                        wanted@[k]@,
                    )].id@
            },
            Err(e) => exists|k: int|
                is_first_unknown(tags@, wanted@, k) && e is Config && e->Config_0@
                    == "Tag not found: "@ + (#[trigger] wanted@[k])@,
        },
{
    let mut ids: Vec<String> = Vec::new();
    let mut k: usize = 0;
    while k < wanted.len()
        invariant
            k <= wanted.len(),
            ids@.len() == k,
            forall|x: int|
                0 <= x < k ==> (#[trigger] ids@[x])@ == tags@[first_meant(tags@, wanted@[x]@)].id@,
            forall|j: int| 0 <= j < k ==> some_tag_meant(tags@, (#[trigger] wanted@[j])@),
        decreases wanted.len() - k,
    {
        match find_tag(tags, &wanted[k]) {
            Some(i) => {
                ids.push(tags[i].id.clone());
            },
            None => {
                assert(is_first_unknown(tags@, wanted@, k as int));
                return Err(N8nError::Config(join2("Tag not found: ", wanted[k].as_str())));
            },
        }
        k += 1;
    }
    Ok(ids)
}

/// Most bytes of a response body that an error message quotes.
pub const MAX_QUOTED_BODY: usize = 500;

/// The API error that a failed response stands for. `parsed` is the body
/// read as an API error, `message` the member `message` of the body, each
/// where the body has that shape. A body that is neither is quoted where
/// it is short, and left out where it is empty or long.
pub open spec fn api_error_of(
    code: u16,
    status: Seq<char>,
    body: Seq<char>,
    body_len: int,
    parsed: Option<ApiErrorResponse>,
    message: Option<Seq<char>>,
) -> (u16, Seq<char>, Option<Seq<char>>) {
    match parsed {
        Some(e) => (e.code, e.message@, opt_text(e.hint)),
        None => match message {
            Some(m) => (code, m, None),
            None => if 0 < body_len < MAX_QUOTED_BODY {
                (code, status + ": "@ + body, None)
            } else {
                (code, "Request failed with status "@ + status, None)
            },
        },
    }
}

/// The API error that a failed response stands for.
pub fn api_error(
    code: u16,
    status: &str,
    body: &str,
    parsed: Option<ApiErrorResponse>,
    message: Option<String>,
) -> (r: ApiErrorResponse)
    ensures
        (r.code, r.message@, opt_text(r.hint)) == api_error_of(
            code,
            status@,
            body@,
            body.spec_bytes().len() as int,
            parsed,
            opt_text(message),
        ),
{
    match parsed {
        Some(e) => e,
        None => match message {
            Some(m) => ApiErrorResponse { code, message: m, hint: None },
            None => {
                let n = body.as_bytes().len();
                if 0 < n && n < MAX_QUOTED_BODY {
                    ApiErrorResponse { code, message: join3(status, ": ", body), hint: None }
                } else {
                    ApiErrorResponse::unknown(code, status)
                }
            },
        },
    }
}

/// The error that a request stands for which got no response: a failed
/// connection where none was made or none answered in time.
pub fn request_error(connect: bool, timeout: bool, url: &str, text: &str) -> (r: N8nError)
    ensures
        connect ==> r is ConnectionFailed && r->ConnectionFailed_url@ == url@
            && r->ConnectionFailed_message@ == text@,
        !connect && timeout ==> r is ConnectionFailed && r->ConnectionFailed_url@ == url@
            && r->ConnectionFailed_message@ == "Request timed out"@,
        !connect && !timeout ==> r is Request && r->Request_0@ == text@,
{
    if connect {
        N8nError::ConnectionFailed { url: url.to_owned(), message: text.to_owned() }
    } else if timeout {
        N8nError::ConnectionFailed { url: url.to_owned(), message: "Request timed out".to_owned() }
    } else {
        N8nError::Request(text.to_owned())
    }
}

impl HealthResponse {
    /// What a health check reports: `good` after a successful response,
    /// else `bad` with the status in brackets.
    pub fn from_response(success: bool, good: &str, bad: &str, status: &str) -> (r: Self)
        ensures
            r.status@ == if success {
                good@
            } else {
                bad@ + " ("@ + status@ + ")"@
            },
    {
        if success {
            HealthResponse { status: good.to_owned() }
        } else {
            let mut text = join3(bad, " (", status);
            text.append(")");
            HealthResponse { status: text }
        }
    }
}

/// How a webhook is called.
#[derive(Debug, Clone, Copy, PartialEq, Eq, Structural)]
pub enum HttpMethod {
    Get,
    Post,
    Put,
    Patch,
    Delete,
}

/// The text in upper case, as `str::to_uppercase` gives it: each
/// character replaced by its Unicode upper-case form, whatever the
/// language of the user.
pub uninterp spec fn uppercase_of(s: Seq<char>) -> Seq<char>;

/// Calls `str::to_uppercase`.
#[verifier::external_body]
fn to_upper(s: &str) -> (r: String)
    ensures
        r@ == uppercase_of(s@),
{
    s.to_uppercase()
}

/// The method that a name in upper case stands for; `POST` for a name
/// that stands for none.
pub open spec fn method_of(upper: Seq<char>) -> HttpMethod {
    if upper == "GET"@ {
        HttpMethod::Get
    } else if upper == "PUT"@ {
        HttpMethod::Put
    } else if upper == "PATCH"@ {
        HttpMethod::Patch
    } else if upper == "DELETE"@ {
        HttpMethod::Delete
    } else {
        HttpMethod::Post
    }
}

/// The method that a name in upper case stands for.
pub fn method_named(upper: &str) -> (r: HttpMethod)
    ensures
        r == method_of(upper@),
{
    let name = upper.to_owned();
    if name == "GET".to_owned() {
        HttpMethod::Get
    } else if name == "PUT".to_owned() {
        HttpMethod::Put
    } else if name == "PATCH".to_owned() {
        HttpMethod::Patch
    } else if name == "DELETE".to_owned() {
        HttpMethod::Delete
    } else {
        HttpMethod::Post
    }
}

/// The method that a name stands for, in whatever case it is written.
pub fn http_method(name: &str) -> (r: HttpMethod)
    ensures
        r == method_of(uppercase_of(name@)),
{
    let upper = to_upper(name);
    method_named(upper.as_str())
}

/// The editor to open: the one asked for, else the one the variable
/// `EDITOR` names, else the one `VISUAL` names, else `vi`.
pub fn choose_editor(asked: Option<String>, editor: Option<String>, visual: Option<String>) -> (r:
    String)
    ensures
        r@ == match asked {
            Some(a) => a@,
            None => match editor {
                Some(e) => e@,
                None => match visual {
                    Some(v) => v@,
                    None => "vi"@,
                },
            },
        },
{
    match asked {
        Some(a) => a,
        None => match editor {
            Some(e) => e,
            None => match visual {
                Some(v) => v,
                None => "vi".to_owned(),
            },
        },
    }
}

} // verus!
