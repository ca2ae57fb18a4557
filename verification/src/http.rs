//! Routing: from the method and the path of a request to the command that
//! answers it.

use crate::request::RequestMethod;
use crate::text::{
    join, lemma_find_is, lemma_join_split, occurs_at, push_chars, spells, split, split_on,
    to_chars, to_text, views,
};
use vstd::prelude::*;
use vstd::slice::slice_subrange;

verus! {

/// What a request asks for.
#[derive(Debug, PartialEq, Eq)]
pub enum Command {
    /// The index page.
    Index,
    /// Send the text back.
    Echo(String),
    /// Send back what the `User-Agent` header holds.
    UserAgent,
    /// Send the file of that name.
    GetFile(String),
    /// Store the body of the request in the file of that name.
    SaveFile(String),
    /// Nothing that the server knows of.
    Error,
}

/// What a `Command` holds.
pub enum CommandView {
    Index,
    Echo(Seq<char>),
    UserAgent,
    GetFile(Seq<char>),
    SaveFile(Seq<char>),
    Error,
}

impl View for Command {
    type V = CommandView;

    open spec fn view(&self) -> CommandView {
        match self {
            Command::Index => CommandView::Index,
            Command::Echo(value) => CommandView::Echo(value@),
            Command::UserAgent => CommandView::UserAgent,
            Command::GetFile(name) => CommandView::GetFile(name@),
            Command::SaveFile(name) => CommandView::SaveFile(name@),
            Command::Error => CommandView::Error,
        }
    }
}

/// The path without one slash at its start and one at its end, where it has
/// them.
pub open spec fn trimmed(path: Seq<char>) -> Seq<char> {
    let front = if path.len() > 0 && path.first() == '/' {
        path.drop_first()
    } else {
        path
    };
    if front.len() > 0 && front.last() == '/' {
        front.drop_last()
    } else {
        front
    }
}

/// The segments of a path: what stands between the slashes of the trimmed
/// path. There is always at least one.
pub open spec fn segments(path: Seq<char>) -> Seq<Seq<char>> {
    split(trimmed(path), "/"@)
}

/// One segment, empty or `index`.
pub open spec fn is_index(segments: Seq<Seq<char>>) -> bool {
    segments.len() == 1 && (segments[0].len() == 0 || segments[0] == "index"@)
}

/// `echo`, and any segments after it.
pub open spec fn is_echo(segments: Seq<Seq<char>>) -> bool {
    segments.len() >= 1 && segments[0] == "echo"@
}

/// One segment, `user-agent`.
pub open spec fn is_user_agent(segments: Seq<Seq<char>>) -> bool {
    segments.len() == 1 && segments[0] == "user-agent"@
}

/// `files` and one segment more, the name.
pub open spec fn is_file(segments: Seq<Seq<char>>) -> bool {
    segments.len() == 2 && segments[0] == "files"@
}

/// Whether a row of the routing table takes the method and the segments.
pub open spec fn in_table(method: RequestMethod, segments: Seq<Seq<char>>) -> bool {
    match method {
        RequestMethod::GET => is_index(segments) || is_echo(segments) || is_user_agent(segments)
            || is_file(segments),
        RequestMethod::POST => is_file(segments),
    }
}

/// The command for a method and a path. The rows of the table are tried in
/// this order, and the first that fits decides:
///
/// | method | segments            | command                       |
/// |--------|---------------------|-------------------------------|
/// | GET    | `""` or `index`     | `Index`                       |
/// | GET    | `echo`, rest...     | `Echo` of the rest, with `/`  |
/// | GET    | `user-agent`        | `UserAgent`                   |
/// | GET    | `files`, name       | `GetFile` of the name         |
/// | POST   | `files`, name       | `SaveFile` of the name        |
/// | any    | anything else       | `Error`                       |
pub open spec fn route(method: RequestMethod, path: Seq<char>) -> CommandView {
    let s = segments(path);
    match method {
        RequestMethod::GET => if is_index(s) {
            CommandView::Index
        } else if is_echo(s) {
            CommandView::Echo(join(s.skip(1), "/"@))
        } else if is_user_agent(s) {
            CommandView::UserAgent
        } else if is_file(s) {
            CommandView::GetFile(s[1])
        } else {
            CommandView::Error
        },
        RequestMethod::POST => if is_file(s) {
            CommandView::SaveFile(s[1])
        } else {
            CommandView::Error
        },
    }
}

/// The segments after the first, with a slash between each two.
fn join_rest(segments: &Vec<&[char]>) -> (value: String)
    requires
        segments@.len() >= 1,
    ensures
        value@ == join(views(segments@).skip(1), "/"@),
{
    let ghost rest = views(segments@).skip(1);
    let mut value = String::new();
    let mut k: usize = 1;
    while k < segments.len()
        invariant
            1 <= k <= segments.len(),
            rest == views(segments@).skip(1),
            value@ == join(rest.take(k - 1), "/"@),
        decreases segments.len() - k,
    {
        proof {
            assert(rest.take(k as int).drop_last() == rest.take(k - 1));
        }
        if k > 1 {
            value.append("/");
        }
        push_chars(&mut value, segments[k]);
        k += 1;
    }
    proof {
        assert(rest.take(k - 1) == rest);
    }
    value
}

/// The command for a method and a path.
pub fn path_handler(method: &RequestMethod, path: &str) -> (command: Command)
    ensures
        command@ == route(*method, path@),
{
    let chars = to_chars(path);
    let mut start: usize = 0;
    let mut end: usize = chars.len();
    if start < end && chars[start] == '/' {
        start += 1;
    }
    if start < end && chars[end - 1] == '/' {
        end -= 1;
    }
    let slash = to_chars("/");
    proof {
        assert(chars@.subrange(start as int, end as int) == trimmed(path@));
    }
    let segments = split_on(slice_subrange(chars.as_slice(), start, end), slash.as_slice());
    let first: &[char] = segments[0];
    match method {
        RequestMethod::GET => {
            if segments.len() == 1 && (first.len() == 0 || spells(first, "index")) {
                Command::Index
            } else if spells(first, "echo") {
                Command::Echo(join_rest(&segments))
            } else if segments.len() == 1 && spells(first, "user-agent") {
                Command::UserAgent
            } else if segments.len() == 2 && spells(first, "files") {
                Command::GetFile(to_text(segments[1]))
            } else {
                Command::Error
            }
        },
        RequestMethod::POST => {
            if segments.len() == 2 && spells(first, "files") {
                Command::SaveFile(to_text(segments[1]))
            } else {
                Command::Error
            }
        },
    }
}

/// A method and a path that no row of the table takes get `Error`, and only
/// they do.
pub proof fn lemma_route_error(method: RequestMethod, path: Seq<char>)
    ensures
        route(method, path) is Error <==> !in_table(method, segments(path)),
{
}

/// `GET` of a path that goes on after `echo/` gets back what follows `echo/`,
/// as it stands in the trimmed path, slashes and all.
pub proof fn lemma_echo_rest(path: Seq<char>)
    requires
        trimmed(path).len() >= 5,
        trimmed(path).take(5) == "echo/"@,
    ensures
        route(RequestMethod::GET, path) == CommandView::Echo(trimmed(path).skip(5)),
{
    reveal_strlit("echo/");
    reveal_strlit("echo");
    reveal_strlit("/");
    let t = trimmed(path);
    let rest = t.skip(5);
    assert(t.take(5)[4] == t[4]);
    assert(t.subrange(4, 5) == "/"@);
    assert forall|j: int| 0 <= j < 4 implies !occurs_at(t, "/"@, j) by {
        if occurs_at(t, "/"@, j) {
            assert(t.subrange(j, j + 1)[0] == t[j]);
            assert(t.take(5)[j] == t[j]);
        }
    }
    lemma_find_is(t, "/"@, 4);
    assert(t.take(4) == "echo"@);
    assert(segments(path).skip(1) == split(rest, "/"@));
    lemma_join_split(rest, "/"@);
}

/// The command depends on the method and the path alone: requests that agree
/// in both get the same command.
pub proof fn lemma_route_deterministic(
    method: RequestMethod,
    path: Seq<char>,
    other_method: RequestMethod,
    other_path: Seq<char>,
)
    requires
        method == other_method,
        path == other_path,
    ensures
        route(method, path) == route(other_method, other_path),
{
}

} // verus!
