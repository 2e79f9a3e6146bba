//! Where an organised file goes: `<destination>/<artist>/<album>/<title>.mp3`,
//! and whether an existing file there gets replaced.

use vstd::prelude::*;

verus! {

/// The folder an organised file goes into, with a trailing slash.
pub open spec fn destination_directory_path(folder: Seq<char>, artist: Seq<char>, album: Seq<char>) -> Seq<char> {
    folder + "/"@ + artist + "/"@ + album + "/"@
}

/// The path of an organised file: its folder, then the title and ".mp3".
pub open spec fn destination_file_path(
    folder: Seq<char>,
    artist: Seq<char>,
    album: Seq<char>,
    title: Seq<char>,
) -> Seq<char> {
    destination_directory_path(folder, artist, album) + title + ".mp3"@
}

/// The folder `<destination_folder>/<artist>/<album>/` that an organised
/// file goes into.
pub fn destination_directory(destination_folder: &str, artist: &str, album: &str) -> (res: String)
    ensures
        res@ == destination_directory_path(destination_folder@, artist@, album@),
{
    let mut destination: String = destination_folder.to_owned();
    destination.append("/");
    destination.append(artist);
    destination.append("/");
    destination.append(album);
    destination.append("/");
    destination
}

/// The path `<destination_folder>/<artist>/<album>/<title>.mp3` of an
/// organised file.
pub fn destination_path_with_file_name(destination_folder: &str, artist: &str, album: &str, title: &str) -> (res: String)
    ensures
        res@ == destination_file_path(destination_folder@, artist@, album@, title@),
{
    let mut destination_filename: String = String::new();
    destination_filename.append(title);
    destination_filename.append(".mp3");
    let mut destination = destination_directory(destination_folder, artist, album);
    destination.append(destination_filename.as_str());
    assert(destination@ =~= destination_file_path(destination_folder@, artist@, album@, title@));
    destination
}

/// The destination folder is laid out as the destination, a slash, the
/// artist, a slash, the album and a slash, whatever the names: each part is
/// kept whole, in that order, with nothing else.
pub proof fn lemma_destination_directory_layout(folder: Seq<char>, artist: Seq<char>, album: Seq<char>)
    ensures
        ({
            let d = destination_directory_path(folder, artist, album);
            let f = folder.len() as int;
            let a = artist.len() as int;
            let b = album.len() as int;
            &&& d.len() == f + a + b + 3
            &&& d.subrange(0, f) == folder
            &&& d[f] == '/'
            &&& d.subrange(f + 1, f + 1 + a) == artist
            &&& d[f + 1 + a] == '/'
            &&& d.subrange(f + 2 + a, f + 2 + a + b) == album
            &&& d[f + 2 + a + b] == '/'
        }),
{
    reveal_strlit("/");
    let d = destination_directory_path(folder, artist, album);
    let f = folder.len() as int;
    let a = artist.len() as int;
    let b = album.len() as int;
    assert(d.subrange(0, f) =~= folder);
    assert(d.subrange(f + 1, f + 1 + a) =~= artist);
    assert(d.subrange(f + 2 + a, f + 2 + a + b) =~= album);
}

/// The path of an organised file is its destination folder, then the title
/// whole, then the four characters ".mp3", with nothing else.
pub proof fn lemma_destination_file_layout(folder: Seq<char>, artist: Seq<char>, album: Seq<char>, title: Seq<char>)
    ensures
        ({
            let d = destination_directory_path(folder, artist, album);
            let p = destination_file_path(folder, artist, album, title);
            let n = (d.len() + title.len()) as int;
            &&& p.len() == n + 4
            &&& p.subrange(0, d.len() as int) == d
            &&& p.subrange(d.len() as int, n) == title
            &&& p[n] == '.'
            &&& p[n + 1] == 'm'
            &&& p[n + 2] == 'p'
            &&& p[n + 3] == '3'
        }),
{
    reveal_strlit(".mp3");
    let d = destination_directory_path(folder, artist, album);
    let p = destination_file_path(folder, artist, album, title);
    let n = (d.len() + title.len()) as int;
    assert(p.subrange(0, d.len() as int) =~= d);
    assert(p.subrange(d.len() as int, n) =~= title);
}

/// Whether a file of `source_len` bytes is copied to its destination: always
/// where no file is there yet, and over an existing file only where the new
/// one is larger.
pub fn should_copy(existing_destination_len: Option<u64>, source_len: u64) -> (copy: bool)
    ensures
        copy == match existing_destination_len {
            None => true,
            Some(existing) => source_len > existing,
        },
{
    match existing_destination_len {
        None => true,
        Some(existing) => source_len > existing,
    }
}

} // verus!
