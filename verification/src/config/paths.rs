//! Where the config file and user themes live.
use vstd::prelude::*;
use crate::text::{chars_of, push_str};

verus! {

/// `PathBuf::join` on text: an absolute `part` replaces `base`; otherwise
/// `part` follows `base`, with a `/` between unless `base` is empty or
/// already ends with one.
pub open spec fn join_spec(base: Seq<char>, part: Seq<char>) -> Seq<char> {
    if part.len() > 0 && part[0] == '/' {
        part
    } else if base.len() == 0 {
        part
    } else if base.last() == '/' {
        base + part
    } else {
        base + "/"@ + part
    }
}

pub fn join_path(base: &str, part: &str) -> (r: String)
    ensures
        r@ == join_spec(base@, part@),
{
    let b = chars_of(base);
    let p = chars_of(part);
    let mut r = String::new();
    if p.len() > 0 && p[0] == '/' {
        push_str(&mut r, part);
    } else if b.len() == 0 {
        push_str(&mut r, part);
    } else if b[b.len() - 1] == '/' {
        push_str(&mut r, base);
        push_str(&mut r, part);
    } else {
        push_str(&mut r, base);
        push_str(&mut r, "/");
        push_str(&mut r, part);
    }
    r
}

/// The directory holding `config.toml` and `themes/`: the override
/// variable's value as given; else `lazyjust` under a non-empty
/// `XDG_CONFIG_HOME`; else `lazyjust` under the platform's config
/// directory (or `.`).
pub open spec fn config_root_spec(override_dir: Option<Seq<char>>, xdg: Option<Seq<char>>, platform: Option<Seq<char>>) -> Seq<char> {
    match override_dir {
        Some(v) => v,
        None => match xdg {
            Some(x) => if x.len() > 0 {
                join_spec(x, "lazyjust"@)
            } else {
                join_spec(match platform { Some(p) => p, None => "."@ }, "lazyjust"@)
            },
            None => join_spec(match platform { Some(p) => p, None => "."@ }, "lazyjust"@),
        },
    }
}

/// The config directory from `LAZYJUST_CONFIG_DIR`, `XDG_CONFIG_HOME` and
/// the platform's config directory, as the environment gives them.
pub fn config_root(override_dir: Option<&str>, xdg: Option<&str>, platform: Option<&str>) -> (r: String)
    ensures
        r@ == config_root_spec(
            match override_dir { Some(v) => Some(v@), None => None },
            match xdg { Some(v) => Some(v@), None => None },
            match platform { Some(v) => Some(v@), None => None },
        ),
{
    if let Some(v) = override_dir {
        let mut r = String::new();
        push_str(&mut r, v);
        return r;
    }
    if let Some(x) = xdg {
        if chars_of(x).len() > 0 {
            return join_path(x, "lazyjust");
        }
    }
    match platform {
        Some(p) => join_path(p, "lazyjust"),
        None => join_path(".", "lazyjust"),
    }
}

/// The config file inside the config directory.
pub fn config_file_path(root: &str) -> (r: String)
    ensures
        r@ == join_spec(root@, "config.toml"@),
{
    join_path(root, "config.toml")
}

/// The user themes directory inside the config directory.
pub fn user_themes_dir(root: &str) -> (r: String)
    ensures
        r@ == join_spec(root@, "themes"@),
{
    join_path(root, "themes")
}

} // verus!
