//! When paths are the same, and what their files are called.

use crate::path::{
    absolute, components, components_from, file_name, lossy_utf8, path_text, pushed, same_path,
    SLASH,
};
use crate::split::{after_run, lemma_run_len, lemma_run_len_unique, run_len};
use crate::state::state_path;
use vstd::prelude::*;
use vstd::utf8::{
    decode_utf8_encode_utf8, encode_utf8, encode_utf8_decode_utf8, encode_utf8_valid_utf8,
    is_ascii_chars_encode_utf8, valid_utf8,
};

verus! {

/// A piece of a path between two slashes.
pub open spec fn is_piece(piece: Seq<u8>) -> bool {
    !piece.contains('/' as u8)
}

/// A piece of a path that says nothing: it is empty, or it is `.`.
pub open spec fn says_nothing(piece: Seq<u8>) -> bool {
    piece.len() == 0 || piece == seq!['.' as u8]
}

/// `piece` below the directory `dir`.
pub open spec fn below(dir: Seq<u8>, piece: Seq<u8>) -> Seq<u8> {
    dir.push('/' as u8) + piece
}

/// A path of a single piece.
proof fn lemma_single_piece(piece: Seq<u8>, leading: bool)
    requires
        is_piece(piece),
    ensures
        components_from(piece, leading) == if piece.len() == 0 || (says_nothing(piece)
            && !leading) {
            Seq::<Seq<u8>>::empty()
        } else {
            seq![piece]
        },
{
    if piece.len() > 0 {
        assert(forall|k: int| 0 <= k < piece.len() ==> piece.contains(#[trigger] piece[k]));
        lemma_run_len_unique(piece, SLASH, piece.len());
        assert(piece.take(piece.len() as int) =~= piece);
        assert(components_from(after_run(piece, SLASH), false) =~= Seq::empty());
        assert(seq![piece] + Seq::<Seq<u8>>::empty() =~= seq![piece]);
    }
}

/// What the last piece of a path adds to its components.
proof fn lemma_last_piece(dir: Seq<u8>, piece: Seq<u8>, leading: bool)
    requires
        is_piece(piece),
    ensures
        components_from(below(dir, piece), leading) == if says_nothing(piece) {
            components_from(dir, leading)
        } else {
            components_from(dir, leading).push(piece)
        },
    decreases dir.len(),
{
    let path = below(dir, piece);
    let n = run_len(dir, SLASH);
    lemma_run_len(dir, SLASH);
    lemma_run_len_unique(path, SLASH, n);
    assert(path.take(n as int) =~= dir.take(n as int));
    let first = dir.take(n as int);
    if n == dir.len() {
        assert(after_run(path, SLASH) =~= piece);
        assert(first =~= dir);
        lemma_single_piece(piece, false);
        if dir.len() > 0 {
            assert(components_from(after_run(dir, SLASH), false) =~= Seq::empty());
        }
        assert(components_from(path, leading) =~= if says_nothing(piece) {
            components_from(dir, leading)
        } else {
            components_from(dir, leading).push(piece)
        });
    } else {
        let rest = after_run(dir, SLASH);
        assert(after_run(path, SLASH) =~= below(rest, piece));
        lemma_last_piece(rest, piece, false);
        assert(components_from(path, leading) =~= if says_nothing(piece) {
            components_from(dir, leading)
        } else {
            components_from(dir, leading).push(piece)
        });
    }
}

/// The components of a path go by its last piece: one that says nothing adds
/// none, and any other adds itself behind those of its directory. A path of a
/// single piece has that piece for its only component, if it is not empty.
pub proof fn law_components_go_by_the_last_piece(dir: Seq<u8>, piece: Seq<u8>)
    requires
        is_piece(piece),
    ensures
        says_nothing(piece) ==> components(below(dir, piece)) == components(dir),
        !says_nothing(piece) ==> components(below(dir, piece)) == components(dir).push(piece),
        piece.len() == 0 ==> components(piece) == Seq::<Seq<u8>>::empty(),
        piece.len() > 0 ==> components(piece) == seq![piece],
{
    lemma_last_piece(dir, piece, true);
    lemma_single_piece(piece, true);
}

/// A path is absolute exactly if it starts with a slash.
pub proof fn law_absolute_paths_start_with_a_slash(first: u8, rest: Seq<u8>)
    ensures
        absolute(seq![first] + rest) <==> first == '/' as u8,
        !absolute(Seq::empty()),
{
    assert((seq![first] + rest)[0] == first);
}

/// A file is called by the last piece of its path, however deep its directory
/// is. A last piece that says nothing does not count, and a path that ends in
/// `..`, or is no more than `.`, has no name.
pub proof fn law_files_are_called_by_their_last_piece(dir: Seq<u8>, piece: Seq<u8>)
    requires
        is_piece(piece),
    ensures
        !says_nothing(piece) && piece != seq!['.' as u8, '.' as u8] ==> file_name(
            below(dir, piece),
        ) == Some(piece) && file_name(piece) == Some(piece),
        says_nothing(piece) ==> file_name(below(dir, piece)) == file_name(dir) && file_name(
            piece,
        ) is None,
        piece == seq!['.' as u8, '.' as u8] ==> file_name(below(dir, piece)) is None
            && file_name(piece) is None,
{
    law_components_go_by_the_last_piece(dir, piece);
    if !says_nothing(piece) {
        assert(components(below(dir, piece)).last() == piece);
    }
}

/// Two paths are the same exactly if both or neither start at the root and
/// they have the same components.
pub proof fn law_same_paths_have_the_same_components(a: Seq<u8>, b: Seq<u8>)
    ensures
        same_path(a, b) <==> absolute(a) == absolute(b) && components(a) == components(b),
{
}

/// Of two directories, a file called alike in each is the same exactly if the
/// directories are, and files called differently are never the same.
pub proof fn law_sameness_goes_piece_by_piece(
    a: Seq<u8>,
    b: Seq<u8>,
    name: Seq<u8>,
    other: Seq<u8>,
)
    requires
        a.len() > 0,
        b.len() > 0,
        is_piece(name),
        is_piece(other),
        !says_nothing(name),
        !says_nothing(other),
    ensures
        same_path(below(a, name), below(b, other)) <==> same_path(a, b) && name == other,
{
    law_components_go_by_the_last_piece(a, name);
    law_components_go_by_the_last_piece(b, other);
    let x = components(a).push(name);
    let y = components(b).push(other);
    if x == y {
        assert(x.drop_last() =~= components(a));
        assert(y.drop_last() =~= components(b));
        assert(x.last() == name && y.last() == other);
    }
}

/// A slash too many, a `.` on the way and a slash at the end do not make
/// another path of it; a slash at the start does.
pub proof fn law_spelling_does_not_matter(dir: Seq<u8>, name: Seq<u8>)
    requires
        dir.len() > 0,
        is_piece(name),
    ensures
        same_path(below(below(dir, Seq::empty()), name), below(dir, name)),
        same_path(below(below(dir, seq!['.' as u8]), name), below(dir, name)),
        same_path(below(dir, Seq::empty()), dir),
        same_path(below(dir, seq!['.' as u8]), dir),
        !absolute(dir) ==> !same_path(seq!['/' as u8] + dir, dir),
{
    let nothing = Seq::<u8>::empty();
    let dot = seq!['.' as u8];
    assert(is_piece(nothing));
    assert(is_piece(dot));
    law_components_go_by_the_last_piece(dir, nothing);
    law_components_go_by_the_last_piece(dir, dot);
    law_components_go_by_the_last_piece(dir, name);
    law_components_go_by_the_last_piece(below(dir, nothing), name);
    law_components_go_by_the_last_piece(below(dir, dot), name);
    assert((seq!['/' as u8] + dir)[0] == '/' as u8);
}

/// What is put below a directory stands behind it, one slash apart; below
/// nothing it stands alone, and what starts at the root stays where it is.
pub proof fn law_names_are_put_below_their_directory(dir: Seq<u8>, name: Seq<u8>)
    ensures
        absolute(name) ==> pushed(dir, name) == name,
        !absolute(name) ==> pushed(Seq::empty(), name) == name,
        !absolute(name) ==> pushed(dir.push('/' as u8), name) == below(dir, name),
        !absolute(name) && dir.len() > 0 && dir.last() != '/' as u8 ==> pushed(dir, name)
            == below(dir, name),
{
    assert(Seq::<u8>::empty() + name =~= name);
}

/// A file put below a directory is called as it was, and stands below the
/// components of that directory.
pub proof fn law_put_files_keep_their_names(dir: Seq<u8>, name: Seq<u8>)
    requires
        is_piece(name),
        !says_nothing(name),
        name != seq!['.' as u8, '.' as u8],
    ensures
        file_name(pushed(dir, name)) == Some(name),
        components(pushed(dir, name)) == components(dir).push(name),
        dir.len() > 0 ==> absolute(pushed(dir, name)) == absolute(dir),
{
    assert(name.contains(name[0]));
    assert(!absolute(name));
    law_names_are_put_below_their_directory(dir, name);
    law_files_are_called_by_their_last_piece(dir, name);
    law_components_go_by_the_last_piece(dir, name);
    if dir.len() == 0 {
        assert(dir =~= Seq::empty());
        assert(components(dir).push(name) =~= seq![name]);
    } else if dir.last() == SLASH {
        let front = dir.drop_last();
        assert(front.push(SLASH) =~= dir);
        law_names_are_put_below_their_directory(front, name);
        law_files_are_called_by_their_last_piece(front, name);
        law_components_go_by_the_last_piece(front, name);
        let nothing = Seq::<u8>::empty();
        assert(is_piece(nothing));
        law_components_go_by_the_last_piece(front, nothing);
        assert(below(front, nothing) =~= dir);
    }
}

/// A path that was spelled as a text gives the text back, and a text that a
/// UTF-8 path gives spells the path.
pub proof fn law_paths_and_texts_stand_for_each_other(text: Seq<char>, path: Seq<u8>)
    ensures
        path_text(encode_utf8(text)) == text,
        valid_utf8(path) ==> encode_utf8(path_text(path)) == path,
        !valid_utf8(path) ==> path_text(path) == lossy_utf8(path),
{
    encode_utf8_valid_utf8(text);
    encode_utf8_decode_utf8(text);
    if valid_utf8(path) {
        decode_utf8_encode_utf8(path);
    }
}

/// The bytes of the places of the state file, name by name.
#[verifier::spinoff_prover]
proof fn lemma_state_places()
    ensures
        encode_utf8(".config/movie_player/state.txt"@) == below(
            below(encode_utf8(".config"@), encode_utf8("movie_player"@)),
            encode_utf8("state.txt"@),
        ),
        encode_utf8("Library/Application Support/movie_player/state.txt"@) == below(
            below(
                below(encode_utf8("Library"@), encode_utf8("Application Support"@)),
                encode_utf8("movie_player"@),
            ),
            encode_utf8("state.txt"@),
        ),
{
    reveal_strlit("Library/Application Support/movie_player/state.txt");
    reveal_strlit(".config/movie_player/state.txt");
    reveal_strlit("Library");
    reveal_strlit("Application Support");
    reveal_strlit(".config");
    reveal_strlit("movie_player");
    reveal_strlit("state.txt");
    is_ascii_chars_encode_utf8("Library/Application Support/movie_player/state.txt"@);
    is_ascii_chars_encode_utf8(".config/movie_player/state.txt"@);
    is_ascii_chars_encode_utf8("Library"@);
    is_ascii_chars_encode_utf8("Application Support"@);
    is_ascii_chars_encode_utf8(".config"@);
    is_ascii_chars_encode_utf8("movie_player"@);
    is_ascii_chars_encode_utf8("state.txt"@);
}

/// None of the names on the way to the state file starts at the root, and
/// each ends in something else than a slash.
#[verifier::spinoff_prover]
proof fn lemma_state_names(name: Seq<char>)
    requires
        name == "Library"@ || name == "Application Support"@ || name == ".config"@ || name
            == "movie_player"@ || name == "state.txt"@,
    ensures
        encode_utf8(name).len() > 0,
        encode_utf8(name)[0] != '/' as u8,
        encode_utf8(name).last() != '/' as u8,
{
    reveal_strlit("Library");
    reveal_strlit("Application Support");
    reveal_strlit(".config");
    reveal_strlit("movie_player");
    reveal_strlit("state.txt");
    is_ascii_chars_encode_utf8(name);
}

/// The state file stands at a fixed place below the home directory, one slash
/// behind it.
pub proof fn law_state_file_has_a_fixed_place(home: Seq<u8>)
    ensures
        ({
            let on_macos = encode_utf8("Library/Application Support/movie_player/state.txt"@);
            let elsewhere = encode_utf8(".config/movie_player/state.txt"@);
            if home.len() == 0 || home.last() == '/' as u8 {
                &&& state_path(home, true) == home + on_macos
                &&& state_path(home, false) == home + elsewhere
            } else {
                &&& state_path(home, true) == below(home, on_macos)
                &&& state_path(home, false) == below(home, elsewhere)
            }
        }),
{
    let library = encode_utf8("Library"@);
    let support = encode_utf8("Application Support"@);
    let config = encode_utf8(".config"@);
    let player = encode_utf8("movie_player"@);
    let file = encode_utf8("state.txt"@);
    lemma_state_places();
    lemma_state_names("Library"@);
    lemma_state_names("Application Support"@);
    lemma_state_names(".config"@);
    lemma_state_names("movie_player"@);
    lemma_state_names("state.txt"@);
    let start = if home.len() == 0 || home.last() == '/' as u8 {
        home
    } else {
        home.push('/' as u8)
    };
    assert(pushed(home, library) == start + library);
    assert(pushed(home, config) == start + config);
    assert(state_path(home, true) == below(below(below(start + library, support), player), file));
    assert(state_path(home, false) == below(below(start + config, player), file));
    assert(state_path(home, true) =~= start + below(below(below(library, support), player), file));
    assert(state_path(home, false) =~= start + below(below(config, player), file));
}

} // verus!
