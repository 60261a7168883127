//! Helpers for text that is shown or compared.

use vstd::prelude::*;
use crate::paths::{is_within, text_of_path, FsPath, PathView};
use crate::text::{chars_of, string_of};

verus! {

/// The text with every carriage return that stands right before a newline
/// taken out.
pub open spec fn without_crlf(s: Seq<char>) -> Seq<char>
    decreases s.len(),
{
    if s.len() == 0 {
        s
    } else if s.len() >= 2 && s[0] == '\r' && s[1] == '\n' {
        seq!['\n'] + without_crlf(s.skip(2))
    } else {
        seq![s[0]] + without_crlf(s.skip(1))
    }
}

/// The text with newlines for its line endings, and a newline at its end.
pub open spec fn normalized_newlines(s: Seq<char>) -> Seq<char> {
    let replaced = without_crlf(s);
    if replaced.len() > 0 && replaced.last() == '\n' {
        replaced
    } else {
        replaced.push('\n')
    }
}

/// Replaces every carriage return and newline pair by a newline, and adds
/// a newline at the end unless the text ends in one.
pub fn normalize_newlines(input: &str) -> (r: String)
    ensures
        r@ == normalized_newlines(input@),
{
    let chars = chars_of(input);
    let mut out: Vec<char> = Vec::new();
    let mut i: usize = 0;
    proof {
        assert(chars@.skip(0) == chars@);
        assert(out@ + without_crlf(chars@) == without_crlf(chars@));
    }
    while i < chars.len()
        invariant
            i <= chars.len(),
            out@ + without_crlf(chars@.skip(i as int)) == without_crlf(chars@),
        decreases chars.len() - i,
    {
        let ghost rest = chars@.skip(i as int);
        proof {
            assert(rest[0] == chars@[i as int]);
        }
        if chars[i] == '\r' && i + 1 < chars.len() && chars[i + 1] == '\n' {
            proof {
                assert(rest[1] == chars@[i + 1]);
                assert(rest.skip(2) == chars@.skip(i + 2));
                assert(out@.push('\n') + without_crlf(rest.skip(2)) == out@ + (seq!['\n']
                    + without_crlf(rest.skip(2))));
            }
            out.push('\n');
            i += 2;
        } else {
            proof {
                if rest.len() >= 2 {
                    assert(rest[1] == chars@[i + 1]);
                }
                assert(rest.skip(1) == chars@.skip(i + 1));
                assert(out@.push(rest[0]) + without_crlf(rest.skip(1)) == out@ + (seq![rest[0]]
                    + without_crlf(rest.skip(1))));
            }
            out.push(chars[i]);
            i += 1;
        }
    }
    assert(out@ + Seq::<char>::empty() == out@);
    let n = out.len();
    if n == 0 || out[n - 1] != '\n' {
        out.push('\n');
    }
    string_of(&out)
}

/// How `path` is shown to a person who stands at `base`: a path at or
/// below `base` without the names of `base`, `base` itself as a dot, and
/// any other path in full.
pub open spec fn relative_text(base: PathView, path: PathView) -> Seq<char> {
    if !is_within(path, base) {
        text_of_path(path)
    } else if path.names.len() == base.names.len() {
        seq!['.']
    } else {
        text_of_path(
            PathView { absolute: false, names: path.names.skip(base.names.len() as int) },
        )
    }
}

/// Shows `path` relative to `base` where it lies at or below it.
pub fn relative_display(base: &FsPath, path: &FsPath) -> (r: String)
    ensures
        r@ == relative_text(base@, path@),
{
    match path.strip_prefix(base) {
        None => path.display(),
        Some(rest) => {
            if rest.names.len() == 0 {
                let dot: Vec<char> = vec!['.'];
                assert(dot@ =~= seq!['.']);
                string_of(&dot)
            } else {
                rest.display()
            }
        },
    }
}

} // verus!
