//! XDG base-directory resolution for the apps.
//!
//! Config lives under `$XDG_CONFIG_HOME/sceno/<app>` (fallback
//! `~/.config/sceno/<app>`); cache under `$XDG_CACHE_HOME/sceno/<app>`
//! (fallback `~/.cache/sceno/<app>`); persistent data under
//! `$XDG_DATA_HOME/sceno/<app>` (fallback `~/.local/share/sceno/<app>`).
//! Reading the environment happens outside the library; the resolution below
//! takes the variables' values and builds the path as text.
use crate::query::contains_any;
use crate::text::{chars_of, contains, find, push_chars, push_str, string_of};
use vstd::prelude::*;

verus! {

/// `base` joined with `part` (what `PathBuf::push` does on Unix): an absolute
/// `part` replaces `base`; otherwise a `/` goes between them unless `base` is
/// empty or already ends with one.
pub open spec fn join(base: Seq<char>, part: Seq<char>) -> Seq<char> {
    if part.len() > 0 && part[0] == '/' {
        part
    } else if base.len() == 0 || base.last() == '/' {
        base + part
    } else {
        base + seq!['/'] + part
    }
}

/// An app name that stays inside the `sceno/` subtree: non-empty, not hidden,
/// no path separator.
pub open spec fn valid_app_name(app: Seq<char>) -> bool {
    &&& app.len() > 0
    &&& app[0] != '.'
    &&& !app.contains('/')
    &&& !app.contains('\\')
}

/// The resolved directory: `xdg` when set and non-empty, else `home/fallback`;
/// then `sceno/<app>`. `None` for an escaping app name or with neither source.
pub open spec fn resolved_dir(
    xdg: Option<Seq<char>>,
    home: Option<Seq<char>>,
    fallback: Seq<char>,
    app: Seq<char>,
) -> Option<Seq<char>> {
    if !valid_app_name(app) {
        None
    } else {
        let root = match xdg {
            Some(x) if x.len() > 0 => Some(x),
            _ => match home {
                Some(h) => Some(join(h, fallback)),
                None => None,
            },
        };
        match root {
            Some(r) => Some(join(join(r, "sceno"@), app)),
            None => None,
        }
    }
}

/// A resolved directory is always `<root>/sceno/<app>`: it ends with
/// `sceno/` and the app name, whichever root it came from.
pub proof fn lemma_resolved_under_sceno(
    xdg: Option<Seq<char>>,
    home: Option<Seq<char>>,
    fallback: Seq<char>,
    app: Seq<char>,
)
    ensures
        resolved_dir(xdg, home, fallback, app) matches Some(p) ==> p.len() >= app.len() + 6 && p.skip(
            p.len() - app.len() - 6,
        ) == "sceno/"@ + app,
{
    reveal_strlit("sceno");
    reveal_strlit("sceno/");
    if let Some(p) = resolved_dir(xdg, home, fallback, app) {
        let root = match xdg {
            Some(x) if x.len() > 0 => x,
            _ => join(home->0, fallback),
        };
        let mid = join(root, "sceno"@);
        assert(mid.len() >= 5 && mid.skip(mid.len() - 5) =~= "sceno"@);
        assert(mid.last() == 'o');
        assert(p == mid + seq!['/'] + app);
        assert(p.skip(p.len() - app.len() - 6) =~= "sceno/"@ + app);
    }
}

fn has_char(s: &Vec<char>, c: char) -> (r: bool)
    ensures
        r == s@.contains(c),
{
    let mut k: usize = 0;
    while k < s.len()
        invariant
            k <= s.len(),
            forall|i: int| 0 <= i < k ==> s@[i] != c,
        decreases s.len() - k,
    {
        if s[k] == c {
            return true;
        }
        k += 1;
    }
    false
}

pub(crate) fn join_into(base: Vec<char>, part: &Vec<char>) -> (r: Vec<char>)
    ensures
        r@ == join(base@, part@),
{
    if part.len() > 0 && part[0] == '/' {
        return part.clone();
    }
    let mut out = base;
    if out.len() > 0 && out[out.len() - 1] != '/' {
        out.push('/');
    }
    let ghost mid = out@;
    push_chars(&mut out, part);
    proof {
        if base@.len() > 0 && base@.last() != '/' {
            assert(mid =~= base@ + seq!['/']);
        } else {
            assert(mid =~= base@);
        }
    }
    out
}

/// Pure XDG base resolution (environment values passed in): use `xdg` when it
/// is `Some` and non-empty, otherwise `home/fallback`; then append
/// `sceno/<app>`. Returns `None` for app names that would escape the `sceno/`
/// subtree, or when neither source is available.
pub fn resolve(xdg: Option<&str>, home: Option<&str>, fallback: &str, app: &str) -> (r: Option<String>)
    ensures
        match r {
            Some(p) => resolved_dir(
                match xdg {
                    Some(x) => Some(x@),
                    None => None,
                },
                match home {
                    Some(h) => Some(h@),
                    None => None,
                },
                fallback@,
                app@,
            ) == Some(p@),
            None => resolved_dir(
                match xdg {
                    Some(x) => Some(x@),
                    None => None,
                },
                match home {
                    Some(h) => Some(h@),
                    None => None,
                },
                fallback@,
                app@,
            ) is None,
        },
{
    let a = chars_of(app);
    if a.len() == 0 || a[0] == '.' || has_char(&a, '/') || has_char(&a, '\\') {
        return None;
    }
    let root = match xdg {
        Some(x) if !x.is_empty() => chars_of(x),
        _ => match home {
            Some(h) => join_into(chars_of(h), &chars_of(fallback)),
            None => {
                return None;
            },
        },
    };
    let sceno = chars_of("sceno");
    proof {
        reveal_strlit("sceno");
    }
    let p = join_into(join_into(root, &sceno), &a);
    Some(string_of(&p))
}

/// `name` inside the directory `dir`, when there is one.
pub fn file_in(dir: Option<&str>, name: &str) -> (r: Option<String>)
    ensures
        match dir {
            Some(d) => r matches Some(p) && p@ == join(d@, name@),
            None => r is None,
        },
{
    match dir {
        Some(d) => Some(string_of(&join_into(chars_of(d), &chars_of(name)))),
        None => None,
    }
}

/// The settings file `config.json` inside an app's config directory `config_dir`.
pub fn config_path(config_dir: Option<&str>) -> (r: Option<String>)
    ensures
        match config_dir {
            Some(d) => r matches Some(p) && p@ == join(d@, "config.json"@),
            None => r is None,
        },
{
    file_in(config_dir, "config.json")
}

} // verus!
