//! `zellij pipe` integration: the plugin URL, the command-line arguments,
//! and the plugin's answer on standard output.

use vstd::prelude::*;

use crate::decimal::{dec, push_decimal};
use crate::text::{
    chars_contain, chars_of, chars_start_with, contains, push_str, starts_with, string_of, trim,
    trim_chars, string_from_chars,
};

verus! {

/// `rel` appended to the path `base` as `PathBuf::push` does for a
/// relative path: with a `/` in between unless `base` is empty or already
/// ends with one.
pub open spec fn path_join(base: Seq<char>, rel: Seq<char>) -> Seq<char> {
    if base.len() == 0 || base.last() == '/' {
        base + rel
    } else {
        base + seq!['/'] + rel
    }
}

/// The default plugin URL for the home directory `home`.
pub open spec fn default_plugin_url(home: Option<Seq<char>>) -> Seq<char> {
    match home {
        Some(h) => "file:"@ + path_join(
            path_join(h, ".config/zellij/plugins"@),
            "pinentry-zellij-plugin.wasm"@,
        ),
        None => "file:~/.config/zellij/plugins/pinentry-zellij-plugin.wasm"@,
    }
}

/// The plugin URL for `zellij pipe --plugin`, from the value of
/// `PINENTRY_ZELLIJ_PLUGIN` and the home directory: a `file:` URL is used
/// as it is, a path gets `file:` in front, any other URL scheme is refused
/// in favour of the default.
pub open spec fn plugin_url_spec(env: Option<Seq<char>>, home: Option<Seq<char>>) -> Seq<char> {
    match env {
        Some(p) => if starts_with(p, "file:"@) {
            p
        } else if !contains(p, "://"@) {
            "file:"@ + p
        } else {
            default_plugin_url(home)
        },
        None => default_plugin_url(home),
    }
}

fn push_path_join(s: &mut String, rel: &str)
    ensures
        final(s)@ == path_join(old(s)@, rel@),
{
    let cs = chars_of(s.as_str());
    if cs.len() == 0 || cs[cs.len() - 1] == '/' {
        push_str(s, rel);
    } else {
        crate::text::push_char(s, '/');
        push_str(s, rel);
        assert(final(s)@ =~= old(s)@ + seq!['/'] + rel@);
    }
}

/// Determines the plugin URL for `zellij pipe --plugin` from the value of
/// `PINENTRY_ZELLIJ_PLUGIN` (if set) and the home directory (if known).
pub fn plugin_url(env: Option<&str>, home: Option<&str>) -> (r: String)
    ensures
        r@ == plugin_url_spec(
            match env {
                Some(p) => Some(p@),
                None => None,
            },
            match home {
                Some(h) => Some(h@),
                None => None,
            },
        ),
{
    if let Some(path) = env {
        let p = chars_of(path);
        let file = chars_of("file:");
        if chars_start_with(p.as_slice(), file.as_slice()) {
            return string_of(path);
        }
        let scheme = chars_of("://");
        if !chars_contain(p.as_slice(), scheme.as_slice()) {
            let mut r = string_of("file:");
            push_str(&mut r, path);
            return r;
        }
    }
    match home {
        Some(h) => {
            let mut p = string_of(h);
            push_path_join(&mut p, ".config/zellij/plugins");
            push_path_join(&mut p, "pinentry-zellij-plugin.wasm");
            let mut r = string_of("file:");
            push_str(&mut r, p.as_str());
            r
        },
        None => string_of("file:~/.config/zellij/plugins/pinentry-zellij-plugin.wasm"),
    }
}

/// The arguments of `zellij pipe` that send a request to `plugin`, sized
/// for a terminal of `term_size` (columns, rows) where it is known.
pub open spec fn pipe_args(plugin: Seq<char>, term_size: Option<(u16, u16)>) -> Seq<Seq<char>> {
    let base = seq!["pipe"@, "--plugin"@, plugin, "--name"@, "pinentry"@];
    match term_size {
        Some((cols, rows)) => base + seq![
            "--plugin-configuration"@,
            "term_cols="@ + dec(cols as nat) + " term_rows="@ + dec(rows as nat),
        ],
        None => base,
    }
}

/// Builds the argument list for `zellij pipe`. The request itself is not
/// among them: it goes to the command's standard input.
pub fn build_pipe_args(plugin: &str, term_size: Option<(u16, u16)>) -> (r: Vec<String>)
    ensures
        r@.map_values(|s: String| s@) == pipe_args(plugin@, term_size),
{
    let mut args: Vec<String> = Vec::new();
    args.push(string_of("pipe"));
    args.push(string_of("--plugin"));
    args.push(string_of(plugin));
    args.push(string_of("--name"));
    args.push(string_of("pinentry"));
    if let Some((cols, rows)) = term_size {
        args.push(string_of("--plugin-configuration"));
        let mut conf = string_of("term_cols=");
        push_decimal(&mut conf, cols as u32);
        push_str(&mut conf, " term_rows=");
        push_decimal(&mut conf, rows as u32);
        args.push(conf);
    }
    assert(args@.map_values(|s: String| s@) =~= pipe_args(plugin@, term_size));
    args
}

/// The plugin's answer in the output of `zellij pipe`: the output without
/// surrounding white space, or an error where nothing is left.
pub fn pipe_response_text(output: &str) -> (r: Result<String, String>)
    ensures
        match r {
            Ok(t) => t@ == trim(output@) && t@.len() > 0,
            Err(e) => trim(output@).len() == 0 && e@ == "empty response from plugin"@,
        },
{
    let cs = chars_of(output);
    let t = trim_chars(cs.as_slice());
    if t.len() == 0 {
        Err(string_of("empty response from plugin"))
    } else {
        Ok(string_from_chars(t.as_slice()))
    }
}

/// The terminal size that an `ioctl(TIOCGWINSZ)` reports: known where the
/// call succeeded and both dimensions are positive.
pub fn window_size(ret: i32, cols: u16, rows: u16) -> (r: Option<(u16, u16)>)
    ensures
        r == (if ret == 0 && cols > 0 && rows > 0 {
            Some((cols, rows))
        } else {
            None
        }),
{
    if ret == 0 && cols > 0 && rows > 0 {
        Some((cols, rows))
    } else {
        None
    }
}

} // verus!
