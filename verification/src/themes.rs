//! Selection of theme names out of a directory listing.
//!
//! The surrounding program reads the theme directory and hands the plain
//! file names here; a theme is a file whose name ends in `.html`, listed
//! under that name with every trailing `.html` stripped. Order is kept.

use vstd::prelude::*;

use vstd::string::StrSliceExecFns;

verus! {

/// The suffix that marks a theme file.
pub open spec fn html_suffix() -> Seq<char> {
    seq!['.', 'h', 't', 'm', 'l']
}

/// Whether `s` ends in `.html`.
pub open spec fn ends_with_html(s: Seq<char>) -> bool {
    s.len() >= 5 && s.skip(s.len() - 5) == html_suffix()
}

/// `s` with every trailing `.html` removed, one after the other.
pub open spec fn strip_html_suffixes(s: Seq<char>) -> Seq<char>
    decreases s.len(),
{
    if ends_with_html(s) {
        strip_html_suffixes(s.take(s.len() - 5))
    } else {
        s
    }
}

/// The theme names among `names`, in order: the names ending in `.html`,
/// each with its trailing `.html` repetitions stripped.
pub open spec fn theme_names(names: Seq<Seq<char>>) -> Seq<Seq<char>>
    decreases names.len(),
{
    if names.len() == 0 {
        Seq::empty()
    } else {
        let rest = theme_names(names.drop_last());
        if ends_with_html(names.last()) {
            rest.push(strip_html_suffixes(names.last()))
        } else {
            rest
        }
    }
}

/// Whether `name` ends in `.html`.
fn has_html_suffix(name: &str) -> (b: bool)
    ensures
        b == ends_with_html(name@),
{
    let n = name.unicode_len();
    if n < 5 {
        return false;
    }
    let ok = name.get_char(n - 5) == '.' && name.get_char(n - 4) == 'h' && name.get_char(n - 3)
        == 't' && name.get_char(n - 2) == 'm' && name.get_char(n - 1) == 'l';
    proof {
        if ok {
            assert(name@.skip(name@.len() - 5) =~= html_suffix());
        } else {
            assert(name@.skip(name@.len() - 5) != html_suffix()) by {
                if name@.skip(name@.len() - 5) == html_suffix() {
                    assert(name@.skip(name@.len() - 5)[0] == name@[name@.len() - 5]);
                    assert(name@.skip(name@.len() - 5)[1] == name@[name@.len() - 4]);
                    assert(name@.skip(name@.len() - 5)[2] == name@[name@.len() - 3]);
                    assert(name@.skip(name@.len() - 5)[3] == name@[name@.len() - 2]);
                    assert(name@.skip(name@.len() - 5)[4] == name@[name@.len() - 1]);
                }
            }
        }
    }
    ok
}

/// `name` with every trailing `.html` removed.
fn strip_suffix(name: &str) -> (out: String)
    ensures
        out@ == strip_html_suffixes(name@),
{
    let mut cur: &str = name;
    while has_html_suffix(cur)
        invariant
            strip_html_suffixes(cur@) == strip_html_suffixes(name@),
        decreases cur@.len(),
    {
        let n = cur.unicode_len();
        cur = cur.substring_char(0, n - 5);
    }
    cur.to_owned()
}

/// The themes in a directory listing: every file name ending in `.html`,
/// in the order given, stripped of its trailing `.html` repetitions.
pub fn list_themes(names: Vec<String>) -> (themes: Vec<String>)
    ensures
        themes.deep_view() == theme_names(names.deep_view()),
{
    let mut themes: Vec<String> = Vec::new();
    let mut i: usize = 0;
    proof {
        assert(names.deep_view().take(0) =~= Seq::<Seq<char>>::empty());
        assert(themes.deep_view() =~= theme_names(names.deep_view().take(0)));
    }
    while i < names.len()
        invariant
            0 <= i <= names@.len(),
            themes.deep_view() == theme_names(names.deep_view().take(i as int)),
        decreases names@.len() - i,
    {
        let ghost prefix = names.deep_view().take(i as int);
        let ghost prefix_next = names.deep_view().take(i + 1);
        proof {
            assert(prefix_next.drop_last() =~= prefix);
            assert(prefix_next.last() == names.deep_view()[i as int]);
            assert(names.deep_view()[i as int] == names@[i as int]@);
        }
        let name = &names[i];
        if has_html_suffix(name.as_str()) {
            let stripped = strip_suffix(name.as_str());
            let ghost before = themes.deep_view();
            themes.push(stripped);
            proof {
                assert(themes.deep_view() =~= before.push(stripped@));
            }
        }
        i = i + 1;
    }
    proof {
        assert(names.deep_view().take(i as int) =~= names.deep_view());
    }
    themes
}

} // verus!
