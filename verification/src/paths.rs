//! Where the programs keep their files, from the directories that the
//! environment names. The program reads the environment.
use vstd::prelude::*;

use crate::text::{chars_of, owned, push_char, push_str};

verus! {

/// `base` joined with a relative `segment`, as `Path::join` does on Unix: a
/// `/` goes between them unless `base` is empty or already ends with one.
pub open spec fn join_spec(base: Seq<char>, segment: Seq<char>) -> Seq<char> {
    if base.len() == 0 {
        segment
    } else if base.last() == '/' {
        base + segment
    } else {
        base + seq!['/'] + segment
    }
}

/// `base` joined with a relative `segment`.
pub fn join_path(base: &str, segment: &str) -> (r: String)
    requires
        segment@.len() == 0 || segment@[0] != '/',
    ensures
        r@ == join_spec(base@, segment@),
{
    let b = chars_of(base);
    let mut r = owned(base);
    if b.len() > 0 && b[b.len() - 1] != '/' {
        push_char(&mut r, '/');
    }
    push_str(&mut r, segment);
    r
}

/// The directory named by an XDG variable when it is set, else the fallback
/// under the home directory.
pub fn xdg_dir(configured: Option<String>, home: Option<String>, fallback_from_home: &str) -> (r: String)
    requires
        configured is Some || home is Some,
        fallback_from_home@.len() == 0 || fallback_from_home@[0] != '/',
    ensures
        match configured {
            Some(dir) => r@ == dir@,
            None => r@ == join_spec(home->0@, fallback_from_home@),
        },
{
    match configured {
        Some(dir) => dir,
        None => match home {
            Some(h) => join_path(h.as_str(), fallback_from_home),
            None => String::new(),
        },
    }
}

/// The file of the history: `copied/stack.json` under the data directory.
pub fn stack_path(data_home: &str) -> (r: String)
    ensures
        r@ == join_spec(join_spec(data_home@, "copied"@), "stack.json"@),
{
    proof {
        reveal_strlit("copied");
        reveal_strlit("stack.json");
    }
    let dir = join_path(data_home, "copied");
    join_path(dir.as_str(), "stack.json")
}

/// The image cache: `copied/images` under the cache directory.
pub fn image_cache_dir(cache_home: &str) -> (r: String)
    ensures
        r@ == join_spec(join_spec(cache_home@, "copied"@), "images"@),
{
    proof {
        reveal_strlit("copied");
        reveal_strlit("images");
    }
    let dir = join_path(cache_home, "copied");
    join_path(dir.as_str(), "images")
}

/// The socket of the daemon: `copied.sock` in the runtime directory.
pub fn socket_path(runtime_dir: &str) -> (r: String)
    ensures
        r@ == join_spec(runtime_dir@, "copied.sock"@),
{
    proof {
        reveal_strlit("copied.sock");
    }
    join_path(runtime_dir, "copied.sock")
}

} // verus!
