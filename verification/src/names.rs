//! Clean artist, album and title names from ID3 tag values.

use vstd::prelude::*;

use crate::matching::{lemma_credit_patterns, regex_replace_all, regex_replace_first};
use crate::text::{
    first_keyword_index, lemma_cut_credit_single_line, lemma_first_keyword_exists,
    lemma_keep_allowed_is_filter, lemma_no_keyword_in_prefix, lemma_no_keyword_in_suffix,
    lemma_no_keyword_across_line_feed, lemma_cut_credit_first_line, contains_ignoring_ascii_case, cut_credit, has_keyword, is_allowed_char, is_white_space,
    keep_allowed, keyword_at, lemma_keep_allowed_idempotent, lemma_keep_allowed_keeps_clean,
    lemma_keep_allowed_only_allowed, lemma_trim_end_keeps_trimmed, lemma_trim_end_prefix, trim_end,
    trim_end_white_space,
};

verus! {

/// The characters of a tag value, where there is one.
pub open spec fn tag_value(tag: Option<&str>) -> Option<Seq<char>> {
    match tag {
        Some(s) => Some(s@),
        None => None,
    }
}

/// The tag value, or "NA" where the tag is missing.
pub open spec fn value_or_na(tag: Option<Seq<char>>) -> Seq<char> {
    match tag {
        Some(s) => s,
        None => "NA"@,
    }
}

/// The artist name made from an artist tag: "NA" for a missing tag; credits
/// introduced by "featuring", "feat.", " ft " and " ft." (ignoring case)
/// cut off to the end of their line, in that order; then every character
/// outside `[a-zA-Z0-9-_ &]` removed and trailing white space trimmed.
pub open spec fn artist_name(tag: Option<Seq<char>>) -> Seq<char> {
    let s = value_or_na(tag);
    let s = cut_credit(s, "featuring"@);
    let s = cut_credit(s, "feat."@);
    let s = cut_credit(s, " ft "@);
    let s = cut_credit(s, " ft."@);
    trim_end_white_space(keep_allowed(s))
}

/// The text an album name is made from: the album tag, else the album artist
/// tag, else "NA".
pub open spec fn album_source(album: Option<Seq<char>>, album_artist: Option<Seq<char>>) -> Seq<char> {
    match album {
        Some(a) => a,
        None => value_or_na(album_artist),
    }
}

/// The album name: credits introduced by "featuring" and "feat." (ignoring
/// case) cut off to the end of their line, then every character outside
/// `[a-zA-Z0-9-_ &]` removed and trailing white space trimmed.
pub open spec fn album_name(album: Option<Seq<char>>, album_artist: Option<Seq<char>>) -> Seq<char> {
    let s = album_source(album, album_artist);
    let s = cut_credit(s, "featuring"@);
    let s = cut_credit(s, "feat."@);
    trim_end_white_space(keep_allowed(s))
}

/// The title name: the title tag with every character outside
/// `[a-zA-Z0-9-_ &]` removed.
pub open spec fn title_name(title: Seq<char>) -> Seq<char> {
    keep_allowed(title)
}

/// `name` with every character outside `[a-zA-Z0-9-_ &]` removed.
fn remove_disallowed_chars(name: String) -> (res: String)
    ensures
        res@ == keep_allowed(name@),
{
    proof {
        reveal_strlit("");
    }
    match regex_replace_all("[^a-zA-Z0-9\\-_ &]", name.as_str(), "") {
        Ok(r) => r,
        Err(_) => name,
    }
}

/// `name` with the credit that `pattern` matches cut off, where the name
/// holds its keyword. The keyword is looked for ignoring ASCII case; for the
/// credit keywords this finds what a search of the lower-cased name finds, as
/// the only other characters whose lower case holds one of their letters are
/// U+212A (to `k`) and U+0130 (to `i` followed by U+0307).
fn strip_credit(name: String, keyword: &str, pattern: &str) -> (res: String)
    requires
        crate::matching::credit_keyword_of(pattern@) == Some(keyword@),
    ensures
        res@ == cut_credit(name@, keyword@),
{
    if contains_ignoring_ascii_case(name.as_str(), keyword) {
        proof {
            reveal_strlit("");
        }
        match regex_replace_first(pattern, true, name.as_str(), "") {
            Ok(r) => r,
            Err(_) => name,
        }
    } else {
        name
    }
}

/// The artist name for an artist tag.
pub fn artist(tag_artist: Option<&str>) -> (res: String)
    ensures
        res@ == artist_name(tag_value(tag_artist)),
{
    proof {
        lemma_credit_patterns();
    }
    let mut artist: String = match tag_artist {
        Some(s) => s.to_owned(),
        None => "NA".to_owned(),
    };
    artist = strip_credit(artist, "featuring", "featuring(.*)");
    artist = strip_credit(artist, "feat.", "feat\\.(.*)");
    artist = strip_credit(artist, " ft ", " ft (.*)");
    artist = strip_credit(artist, " ft.", " ft\\.(.*)");
    artist = remove_disallowed_chars(artist);
    trim_end(artist.as_str())
}

/// The album name for an album tag and an album artist tag.
pub fn album(tag_album: Option<&str>, tag_album_artist: Option<&str>) -> (res: String)
    ensures
        res@ == album_name(tag_value(tag_album), tag_value(tag_album_artist)),
{
    proof {
        lemma_credit_patterns();
    }
    let mut album: String = match tag_album {
        Some(s) => s.to_owned(),
        None => match tag_album_artist {
            Some(s) => s.to_owned(),
            None => "NA".to_owned(),
        },
    };
    album = strip_credit(album, "featuring", "featuring(.*)");
    album = strip_credit(album, "feat.", "feat\\.(.*)");
    album = remove_disallowed_chars(album);
    trim_end(album.as_str())
}

/// The title name for a title tag, which must be present.
pub fn title(tag_title: Option<&str>) -> (res: String)
    requires
        tag_title is Some,
    ensures
        res@ == title_name(tag_title->0@),
{
    let title: String = match tag_title {
        Some(s) => s.to_owned(),
        None => String::new(),
    };
    remove_disallowed_chars(title)
}

/// A text of allowed characters only, which does not end in white space.
pub open spec fn is_clean(s: Seq<char>) -> bool {
    &&& forall|i: int| 0 <= i < s.len() ==> is_allowed_char(#[trigger] s[i])
    &&& (s.len() == 0 || !is_white_space(s.last()))
}

/// Every artist, album and title name holds only the characters
/// `[a-zA-Z0-9-_ &]`, and artist and album names never end in white space.
pub proof fn lemma_names_are_clean(
    artist_tag: Option<Seq<char>>,
    album_tag: Option<Seq<char>>,
    album_artist_tag: Option<Seq<char>>,
    title_tag: Seq<char>,
)
    ensures
        is_clean(artist_name(artist_tag)),
        is_clean(album_name(album_tag, album_artist_tag)),
        forall|i: int| 0 <= i < title_name(title_tag).len() ==> is_allowed_char(#[trigger] title_name(title_tag)[i]),
{
    let a = value_or_na(artist_tag);
    let a = cut_credit(cut_credit(cut_credit(cut_credit(a, "featuring"@), "feat."@), " ft "@), " ft."@);
    lemma_keep_allowed_only_allowed(a);
    lemma_trim_end_prefix(keep_allowed(a));
    assert forall|i: int| 0 <= i < artist_name(artist_tag).len() implies is_allowed_char(
        #[trigger] artist_name(artist_tag)[i],
    ) by {
        assert(artist_name(artist_tag)[i] == keep_allowed(a)[i]);
    }
    let b = cut_credit(cut_credit(album_source(album_tag, album_artist_tag), "featuring"@), "feat."@);
    lemma_keep_allowed_only_allowed(b);
    lemma_trim_end_prefix(keep_allowed(b));
    assert forall|i: int| 0 <= i < album_name(album_tag, album_artist_tag).len() implies is_allowed_char(
        #[trigger] album_name(album_tag, album_artist_tag)[i],
    ) by {
        assert(album_name(album_tag, album_artist_tag)[i] == keep_allowed(b)[i]);
    }
    lemma_keep_allowed_only_allowed(title_tag);
}

/// A clean text holds no "feat." and no " ft.": a dot is not allowed.
proof fn lemma_clean_has_no_dotted_credit(s: Seq<char>)
    requires
        is_clean(s),
    ensures
        !has_keyword(s, "feat."@),
        !has_keyword(s, " ft."@),
{
    reveal_strlit("feat.");
    reveal_strlit(" ft.");
    assert forall|i: int| !keyword_at(s, "feat."@, i) by {
        if keyword_at(s, "feat."@, i) {
            assert(crate::text::ci_eq(s[i + 4], "feat."@[4]));
            assert(is_allowed_char(s[i + 4]));
        }
    }
    assert forall|i: int| !keyword_at(s, " ft."@, i) by {
        if keyword_at(s, " ft."@, i) {
            assert(crate::text::ci_eq(s[i + 3], " ft."@[3]));
            assert(is_allowed_char(s[i + 3]));
        }
    }
}

/// An artist tag that is already a clean name, and holds no "featuring" and
/// no " ft " in any case, is kept as it is.
pub proof fn lemma_clean_artist_is_kept(s: Seq<char>)
    requires
        is_clean(s),
        !has_keyword(s, "featuring"@),
        !has_keyword(s, " ft "@),
    ensures
        artist_name(Some(s)) == s,
{
    lemma_clean_has_no_dotted_credit(s);
    lemma_keep_allowed_keeps_clean(s);
    lemma_trim_end_keeps_trimmed(s);
}

/// An album tag that is already a clean name, and holds no "featuring" in
/// any case, is kept as it is, whatever the album artist tag.
pub proof fn lemma_clean_album_is_kept(s: Seq<char>, album_artist_tag: Option<Seq<char>>)
    requires
        is_clean(s),
        !has_keyword(s, "featuring"@),
    ensures
        album_name(Some(s), album_artist_tag) == s,
{
    lemma_clean_has_no_dotted_credit(s);
    lemma_keep_allowed_keeps_clean(s);
    lemma_trim_end_keeps_trimmed(s);
}

/// A title of allowed characters only is kept as it is.
pub proof fn lemma_clean_title_is_kept(s: Seq<char>)
    requires
        forall|i: int| 0 <= i < s.len() ==> is_allowed_char(#[trigger] s[i]),
    ensures
        title_name(s) == s,
{
    lemma_keep_allowed_keeps_clean(s);
}

/// Making a title name from a title name changes nothing.
pub proof fn lemma_title_name_idempotent(s: Seq<char>)
    ensures
        title_name(title_name(s)) == title_name(s),
{
    lemma_keep_allowed_idempotent(s);
}

/// The album tag, where present, decides the album name: the album artist
/// tag is then not looked at.
pub proof fn lemma_album_tag_takes_precedence(
    album_tag: Seq<char>,
    album_artist_tag: Option<Seq<char>>,
    other_album_artist_tag: Option<Seq<char>>,
)
    ensures
        album_name(Some(album_tag), album_artist_tag) == album_name(Some(album_tag), other_album_artist_tag),
{
}

/// Without an album tag, the album artist tag stands in for it.
pub proof fn lemma_album_artist_stands_in(album_artist_tag: Seq<char>)
    ensures
        album_name(None, Some(album_artist_tag)) == album_name(Some(album_artist_tag), None),
{
}

/// A missing artist tag gives the artist "NA", and missing album and album
/// artist tags give the album "NA".
pub proof fn lemma_missing_tags_give_na()
    ensures
        artist_name(None) == "NA"@,
        album_name(None, None) == "NA"@,
{
    reveal_strlit("NA");
    reveal_strlit("featuring");
    reveal_strlit(" ft ");
    let s = "NA"@;
    assert(is_clean(s));
    assert(!has_keyword(s, "featuring"@));
    assert(!has_keyword(s, " ft "@));
    lemma_clean_artist_is_kept(s);
    lemma_clean_album_is_kept(s, None);
}

/// One of the characters `[a-zA-Z0-9-_ &]` that a clean name may hold.
pub open spec fn in_name_class(c: char) -> bool {
    ('a' <= c && c <= 'z') || ('A' <= c && c <= 'Z') || ('0' <= c && c <= '9') || c == '-' || c
        == '_' || c == ' ' || c == '&'
}

/// One of the credit keywords an artist name is cut at.
pub open spec fn is_artist_credit(kw: Seq<char>) -> bool {
    kw == "featuring"@ || kw == "feat."@ || kw == " ft "@ || kw == " ft."@
}

/// A title name is the title tag with exactly its characters outside
/// `[a-zA-Z0-9-_ &]` removed: every character of the class is kept, in
/// order, and nothing else is; in particular no credit is cut from a title.
pub proof fn lemma_title_keeps_exactly_the_name_class(s: Seq<char>)
    ensures
        title_name(s) == s.filter(|c: char| in_name_class(c)),
        title_name(s).len() <= s.len(),
{
    lemma_keep_allowed_is_filter(s);
    assert((|c: char| is_allowed_char(c)) =~= (|c: char| in_name_class(c)));
    s.lemma_filter_len(|c: char| in_name_class(c));
}

/// An artist tag without any credit keyword (in any case) keeps all its
/// characters of `[a-zA-Z0-9-_ &]`, in order, less trailing white space.
pub proof fn lemma_artist_without_credit(s: Seq<char>)
    requires
        !has_keyword(s, "featuring"@),
        !has_keyword(s, "feat."@),
        !has_keyword(s, " ft "@),
        !has_keyword(s, " ft."@),
    ensures
        artist_name(Some(s)) == trim_end_white_space(s.filter(|c: char| in_name_class(c))),
{
    lemma_keep_allowed_is_filter(s);
    assert((|c: char| is_allowed_char(c)) =~= (|c: char| in_name_class(c)));
}

/// An artist tag on one line with a single kind of credit keyword, in any
/// case and wherever it stands: the artist name is the text before the
/// leftmost occurrence of the keyword, with its characters outside
/// `[a-zA-Z0-9-_ &]` removed and trailing white space trimmed.
pub proof fn lemma_artist_single_credit(s: Seq<char>, kw: Seq<char>)
    requires
        is_artist_credit(kw),
        forall|i: int| 0 <= i < s.len() ==> s[i] != '\n',
        has_keyword(s, kw),
        kw == "featuring"@ || !has_keyword(s, "featuring"@),
        kw == "feat."@ || !has_keyword(s, "feat."@),
        kw == " ft "@ || !has_keyword(s, " ft "@),
        kw == " ft."@ || !has_keyword(s, " ft."@),
    ensures
        0 <= first_keyword_index(s, kw) <= s.len(),
        artist_name(Some(s)) == trim_end_white_space(
            s.subrange(0, first_keyword_index(s, kw)).filter(|c: char| in_name_class(c)),
        ),
{
    reveal_strlit("featuring");
    reveal_strlit("feat.");
    reveal_strlit(" ft ");
    reveal_strlit(" ft.");
    lemma_first_keyword_exists(s, kw);
    lemma_cut_credit_single_line(s, kw);
    let i = first_keyword_index(s, kw);
    let p = s.subrange(0, i);
    if kw != "featuring"@ {
        lemma_no_keyword_in_prefix(s, "featuring"@, i);
    }
    if kw != "feat."@ {
        lemma_no_keyword_in_prefix(s, "feat."@, i);
    }
    if kw != " ft "@ {
        lemma_no_keyword_in_prefix(s, " ft "@, i);
    }
    if kw != " ft."@ {
        lemma_no_keyword_in_prefix(s, " ft."@, i);
    }
    lemma_keep_allowed_is_filter(p);
    assert((|c: char| is_allowed_char(c)) =~= (|c: char| in_name_class(c)));
}

/// A credit on the first line of an artist tag is cut only to the end of that
/// line: the later lines are kept (less their disallowed characters, which
/// include the line feed itself).
pub proof fn lemma_artist_credit_cut_to_end_of_line(a: Seq<char>, b: Seq<char>, kw: Seq<char>)
    requires
        is_artist_credit(kw),
        forall|i: int| 0 <= i < a.len() ==> a[i] != '\n',
        has_keyword(a, kw),
        kw == "featuring"@ || !has_keyword(a + seq!['\n'] + b, "featuring"@),
        kw == "feat."@ || !has_keyword(a + seq!['\n'] + b, "feat."@),
        kw == " ft "@ || !has_keyword(a + seq!['\n'] + b, " ft "@),
        kw == " ft."@ || !has_keyword(a + seq!['\n'] + b, " ft."@),
    ensures
        0 <= first_keyword_index(a, kw) <= a.len(),
        artist_name(Some(a + seq!['\n'] + b)) == trim_end_white_space(
            (a.subrange(0, first_keyword_index(a, kw)) + seq!['\n'] + b).filter(|c: char| in_name_class(c)),
        ),
{
    reveal_strlit("featuring");
    reveal_strlit("feat.");
    reveal_strlit(" ft ");
    reveal_strlit(" ft.");
    assert(" ft "@ != " ft."@) by {
        assert(" ft "@[3] != " ft."@[3]);
    }
    let s = a + seq!['\n'] + b;
    assert(forall|j: int| 0 <= j < kw.len() ==> kw[j] != '\n');
    lemma_first_keyword_exists(a, kw);
    lemma_cut_credit_first_line(a, b, kw);
    let i = first_keyword_index(a, kw);
    let r = a.subrange(0, i) + seq!['\n'] + b;
    assert(s.subrange(0, a.len() as int) =~= a);
    assert(s.subrange((a.len() + 1) as int, s.len() as int) =~= b);
    assert(a.subrange(0, i) =~= s.subrange(0, i));
    if kw != "featuring"@ {
        lemma_no_keyword_in_prefix(s, "featuring"@, i);
        lemma_no_keyword_in_suffix(s, "featuring"@, (a.len() + 1) as int);
        lemma_no_keyword_across_line_feed(a.subrange(0, i), b, "featuring"@);
    }
    if kw != "feat."@ {
        lemma_no_keyword_in_prefix(s, "feat."@, i);
        lemma_no_keyword_in_suffix(s, "feat."@, (a.len() + 1) as int);
        lemma_no_keyword_across_line_feed(a.subrange(0, i), b, "feat."@);
    }
    if kw != " ft "@ {
        lemma_no_keyword_in_prefix(s, " ft "@, i);
        lemma_no_keyword_in_suffix(s, " ft "@, (a.len() + 1) as int);
        lemma_no_keyword_across_line_feed(a.subrange(0, i), b, " ft "@);
    }
    if kw != " ft."@ {
        lemma_no_keyword_in_prefix(s, " ft."@, i);
        lemma_no_keyword_in_suffix(s, " ft."@, (a.len() + 1) as int);
        lemma_no_keyword_across_line_feed(a.subrange(0, i), b, " ft."@);
    }
    let c1 = cut_credit(s, "featuring"@);
    let c2 = cut_credit(c1, "feat."@);
    let c3 = cut_credit(c2, " ft "@);
    let c4 = cut_credit(c3, " ft."@);
    if kw == "featuring"@ {
        assert(c1 == r);
        assert(c4 == r);
    } else if kw == "feat."@ {
        assert(c1 == s);
        assert(c2 == r);
        assert(c4 == r);
    } else if kw == " ft "@ {
        assert(c2 == s);
        assert(c3 == r);
        assert(c4 == r);
    } else {
        assert(c3 == s);
        assert(c4 == r);
    }
    assert(artist_name(Some(s)) == trim_end_white_space(keep_allowed(r)));
    lemma_keep_allowed_is_filter(r);
    assert((|c: char| is_allowed_char(c)) =~= (|c: char| in_name_class(c)));
}

/// An album source without "featuring" and "feat." (in any case) keeps all
/// its characters of `[a-zA-Z0-9-_ &]`, in order, less trailing white space.
pub proof fn lemma_album_without_credit(s: Seq<char>, album_artist_tag: Option<Seq<char>>)
    requires
        !has_keyword(s, "featuring"@),
        !has_keyword(s, "feat."@),
    ensures
        album_name(Some(s), album_artist_tag) == trim_end_white_space(s.filter(|c: char| in_name_class(c))),
{
    lemma_keep_allowed_is_filter(s);
    assert((|c: char| is_allowed_char(c)) =~= (|c: char| in_name_class(c)));
}

/// An album tag on one line with a single kind of credit keyword ("featuring"
/// or "feat."), in any case and whatever stands before it: the album name is
/// the text before the leftmost occurrence of the keyword, with its
/// characters outside `[a-zA-Z0-9-_ &]` removed and trailing white space
/// trimmed.
pub proof fn lemma_album_single_credit(s: Seq<char>, kw: Seq<char>, album_artist_tag: Option<Seq<char>>)
    requires
        kw == "featuring"@ || kw == "feat."@,
        forall|i: int| 0 <= i < s.len() ==> s[i] != '\n',
        has_keyword(s, kw),
        kw == "featuring"@ || !has_keyword(s, "featuring"@),
        kw == "feat."@ || !has_keyword(s, "feat."@),
    ensures
        0 <= first_keyword_index(s, kw) <= s.len(),
        album_name(Some(s), album_artist_tag) == trim_end_white_space(
            s.subrange(0, first_keyword_index(s, kw)).filter(|c: char| in_name_class(c)),
        ),
{
    reveal_strlit("featuring");
    reveal_strlit("feat.");
    lemma_first_keyword_exists(s, kw);
    lemma_cut_credit_single_line(s, kw);
    let i = first_keyword_index(s, kw);
    let p = s.subrange(0, i);
    if kw != "featuring"@ {
        lemma_no_keyword_in_prefix(s, "featuring"@, i);
    }
    if kw != "feat."@ {
        lemma_no_keyword_in_prefix(s, "feat."@, i);
    }
    lemma_keep_allowed_is_filter(p);
    assert((|c: char| is_allowed_char(c)) =~= (|c: char| in_name_class(c)));
}

/// A credit on the first line of an album tag is cut only to the end of that
/// line: the later lines are kept (less their disallowed characters, which
/// include the line feed itself).
pub proof fn lemma_album_credit_cut_to_end_of_line(
    a: Seq<char>,
    b: Seq<char>,
    kw: Seq<char>,
    album_artist_tag: Option<Seq<char>>,
)
    requires
        kw == "featuring"@ || kw == "feat."@,
        forall|i: int| 0 <= i < a.len() ==> a[i] != '\n',
        has_keyword(a, kw),
        kw == "featuring"@ || !has_keyword(a + seq!['\n'] + b, "featuring"@),
        kw == "feat."@ || !has_keyword(a + seq!['\n'] + b, "feat."@),
    ensures
        0 <= first_keyword_index(a, kw) <= a.len(),
        album_name(Some(a + seq!['\n'] + b), album_artist_tag) == trim_end_white_space(
            (a.subrange(0, first_keyword_index(a, kw)) + seq!['\n'] + b).filter(|c: char| in_name_class(c)),
        ),
{
    reveal_strlit("featuring");
    reveal_strlit("feat.");
    let s = a + seq!['\n'] + b;
    assert(forall|j: int| 0 <= j < kw.len() ==> kw[j] != '\n');
    lemma_first_keyword_exists(a, kw);
    lemma_cut_credit_first_line(a, b, kw);
    let i = first_keyword_index(a, kw);
    let r = a.subrange(0, i) + seq!['\n'] + b;
    assert(s.subrange(0, a.len() as int) =~= a);
    assert(s.subrange((a.len() + 1) as int, s.len() as int) =~= b);
    assert(a.subrange(0, i) =~= s.subrange(0, i));
    if kw != "featuring"@ {
        lemma_no_keyword_in_prefix(s, "featuring"@, i);
        lemma_no_keyword_in_suffix(s, "featuring"@, (a.len() + 1) as int);
        lemma_no_keyword_across_line_feed(a.subrange(0, i), b, "featuring"@);
    }
    if kw != "feat."@ {
        lemma_no_keyword_in_prefix(s, "feat."@, i);
        lemma_no_keyword_in_suffix(s, "feat."@, (a.len() + 1) as int);
        lemma_no_keyword_across_line_feed(a.subrange(0, i), b, "feat."@);
    }
    let c1 = cut_credit(s, "featuring"@);
    let c2 = cut_credit(c1, "feat."@);
    if kw == "featuring"@ {
        assert(c1 == r);
        assert(c2 == r);
    } else {
        assert(c1 == s);
        assert(c2 == r);
    }
    assert(album_name(Some(s), album_artist_tag) == trim_end_white_space(keep_allowed(r)));
    lemma_keep_allowed_is_filter(r);
    assert((|c: char| is_allowed_char(c)) =~= (|c: char| in_name_class(c)));
}

} // verus!
