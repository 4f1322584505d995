//! Filesystem paths.
//!
//! Paths are handled as text with `/` as separator, as on Unix. The
//! functions follow the rules by which `std::path` splits a path into
//! components and joins two paths.
use vstd::prelude::*;
use crate::text::{chars_of, concat2, concat3, copy_str, join, join_strings, str_eq, string_from_chars, views};

verus! {

/// The pieces of `s` between the separators, in order, the last one being
/// `cur` extended by what follows the last separator.
pub open spec fn split_pieces(s: Seq<char>, cur: Seq<char>) -> Seq<Seq<char>>
    decreases s.len(),
{
    if s.len() == 0 {
        seq![cur]
    } else if s[0] == '/' {
        seq![cur] + split_pieces(s.drop_first(), Seq::empty())
    } else {
        split_pieces(s.drop_first(), cur.push(s[0]))
    }
}

/// The text between separators that names no component: an empty piece
/// (from a doubled or trailing separator) or the current directory `.`.
pub open spec fn is_skipped_piece(p: Seq<char>) -> bool {
    p.len() == 0 || p == seq!['.']
}

/// The pieces that name a component: normal names and `..`.
pub open spec fn kept_pieces(pieces: Seq<Seq<char>>) -> Seq<Seq<char>>
    decreases pieces.len(),
{
    if pieces.len() == 0 {
        Seq::empty()
    } else if is_skipped_piece(pieces.last()) {
        kept_pieces(pieces.drop_last())
    } else {
        kept_pieces(pieces.drop_last()).push(pieces.last())
    }
}

/// The path starts at the root directory.
pub open spec fn has_root(s: Seq<char>) -> bool {
    s.len() > 0 && s[0] == '/'
}

/// A relative path whose first component is the current directory (`.` or
/// `./...`): this leading `.` is kept as a component.
pub open spec fn starts_with_cur_dir(s: Seq<char>) -> bool {
    !has_root(s) && s.len() > 0 && s[0] == '.' && (s.len() == 1 || s[1] == '/')
}

/// The texts of the components of `s` after the root directory, in
/// order: `.` if the path starts with the current directory, then each
/// normal name and `..`.
pub open spec fn component_texts(s: Seq<char>) -> Seq<Seq<char>> {
    let body = kept_pieces(split_pieces(s, Seq::empty()));
    if starts_with_cur_dir(s) {
        seq![seq!['.']] + body
    } else {
        body
    }
}

/// The path rebuilt from its components: redundant separators and `.`
/// components other than a leading one are gone, and so is a trailing
/// separator.
pub open spec fn normalized(s: Seq<char>) -> Seq<char> {
    if has_root(s) {
        seq!['/'] + join(component_texts(s), seq!['/'])
    } else {
        join(component_texts(s), seq!['/'])
    }
}

/// The last component of the path is a normal name (not the root, `.` or
/// `..`).
pub open spec fn ends_in_normal_name(s: Seq<char>) -> bool {
    let body = kept_pieces(split_pieces(s, Seq::empty()));
    body.len() > 0 && body.last() != seq!['.', '.']
}

/// `segment` joined to `base` as `Path::join` does on Unix: an absolute
/// segment replaces the base, otherwise a separator is put between them
/// unless the base is empty or already ends with one.
pub open spec fn path_join(base: Seq<char>, segment: Seq<char>) -> Seq<char> {
    if has_root(segment) || base.len() == 0 {
        segment
    } else if base.last() == '/' {
        base + segment
    } else {
        base + seq!['/'] + segment
    }
}

/// Joins `segment` to `base` (`Path::join` on Unix).
pub fn join_path(base: &str, segment: &str) -> (r: String)
    ensures
        r@ == path_join(base@, segment@),
{
    let b = chars_of(base);
    let s = chars_of(segment);
    proof {
        reveal_strlit("/");
        assert("/"@ =~= seq!['/']);
    }
    if (s.len() > 0 && s[0] == '/') || b.len() == 0 {
        copy_str(segment)
    } else if b[b.len() - 1] == '/' {
        concat2(base, segment)
    } else {
        concat3(base, "/", segment)
    }
}

proof fn lemma_split_step(s: Seq<char>, i: int, cur: Seq<char>)
    requires
        0 <= i < s.len(),
    ensures
        split_pieces(s.subrange(i, s.len() as int), cur) == if s[i] == '/' {
            seq![cur] + split_pieces(s.subrange(i + 1, s.len() as int), Seq::empty())
        } else {
            split_pieces(s.subrange(i + 1, s.len() as int), cur.push(s[i]))
        },
{
    assert(s.subrange(i, s.len() as int).drop_first() =~= s.subrange(i + 1, s.len() as int));
}

/// The texts of the components of `path` after the root directory and
/// whether the path starts with the root.
pub(crate) fn components(path: &str) -> (r: (bool, bool, Vec<String>))
    ensures
        r.0 == has_root(path@),
        r.1 == starts_with_cur_dir(path@),
        views(r.2@) == component_texts(path@),
{
    let s = chars_of(path);
    let root = s.len() > 0 && s[0] == '/';
    let cur_dir = !root && s.len() > 0 && s[0] == '.' && (s.len() == 1 || s[1] == '/');
    let mut texts: Vec<String> = Vec::new();
    if cur_dir {
        texts.push(copy_str("."));
        proof {
            reveal_strlit(".");
            assert("."@ =~= seq!['.']);
        }
    }
    let ghost prefix: Seq<Seq<char>> = if cur_dir {
        seq![seq!['.']]
    } else {
        Seq::empty()
    };
    let ghost mut done: Seq<Seq<char>> = Seq::empty();
    let mut start: usize = 0;
    let mut i: usize = 0;
    assert(s@.subrange(0, s@.len() as int) =~= s@);
    assert(s@.subrange(0, 0) =~= Seq::<char>::empty());
    assert(done + split_pieces(s@, Seq::empty()) =~= split_pieces(s@, Seq::empty()));
    assert(views(texts@) =~= prefix + kept_pieces(done));
    while i < s.len()
        invariant
            s@ == path@,
            start <= i <= s@.len(),
            done + split_pieces(s@.subrange(i as int, s@.len() as int), s@.subrange(
                start as int,
                i as int,
            )) == split_pieces(s@, Seq::empty()),
            views(texts@) == prefix + kept_pieces(done),
        decreases s@.len() - i,
    {
        proof {
            lemma_split_step(s@, i as int, s@.subrange(start as int, i as int));
        }
        if s[i] == '/' {
            let piece = string_from_chars(&s, start, i);
            let ghost p = piece@;
            let is_dot = i > start && i - start == 1 && s[start] == '.';
            let ghost old_texts = texts@;
            if i > start && !is_dot {
                texts.push(piece);
            }
            proof {
                assert(done.push(p).drop_last() =~= done);
                assert(done.push(p).last() == p);
                if i > start && !is_dot {
                    assert(views(texts@) =~= views(old_texts).push(p));
                } else {
                    assert(views(texts@) =~= views(old_texts));
                }
                assert(is_skipped_piece(p) == !(i > start && !is_dot)) by {
                    if p == seq!['.'] {
                        assert(p[0] == s@[start as int]);
                    }
                    if is_dot {
                        assert(p =~= seq!['.']);
                    }
                }
                assert(done.push(p).drop_last() =~= done);
                assert(done.push(p) + split_pieces(s@.subrange(i + 1, s@.len() as int), Seq::empty())
                    =~= done + (seq![p] + split_pieces(s@.subrange(i + 1, s@.len() as int), Seq::empty())));
                done = done.push(p);
                assert(views(texts@) =~= prefix + kept_pieces(done));
            }
            start = i + 1;
            assert(s@.subrange(start as int, (i + 1) as int) =~= Seq::<char>::empty());
        } else {
            assert(s@.subrange(start as int, i + 1) =~= s@.subrange(start as int, i as int).push(s@[i as int]));
        }
        i = i + 1;
    }
    let piece = string_from_chars(&s, start, i);
    let ghost p = piece@;
    let is_dot = i > start && i - start == 1 && s[start] == '.';
    let ghost old_texts = texts@;
    if i > start && !is_dot {
        texts.push(piece);
    }
    proof {
        assert(done.push(p).drop_last() =~= done);
        assert(done.push(p).last() == p);
        if i > start && !is_dot {
            assert(views(texts@) =~= views(old_texts).push(p));
        } else {
            assert(views(texts@) =~= views(old_texts));
        }
        assert(is_skipped_piece(p) == !(i > start && !is_dot)) by {
            if p == seq!['.'] {
                assert(p[0] == s@[start as int]);
            }
            if is_dot {
                assert(p =~= seq!['.']);
            }
        }
        assert(s@.subrange(i as int, s@.len() as int) =~= Seq::<char>::empty());
        assert(done.push(p).drop_last() =~= done);
        assert(done + seq![p] =~= done.push(p));
        done = done.push(p);
        assert(views(texts@) =~= prefix + kept_pieces(done));
    }
    (root, cur_dir, texts)
}

/// Normalizes a path.
///
/// In contrast to `std::fs::canonicalize` the path does not need to exist:
/// it is rebuilt from its components, so that doubled separators, `.`
/// components after the first and a trailing separator are dropped.
pub fn normalize_path(path: &str) -> (r: String)
    ensures
        r@ == normalized(path@),
{
    let (root, _, texts) = components(path);
    let body = join_strings(&texts, "/");
    proof {
        reveal_strlit("/");
        assert("/"@ =~= seq!['/']);
    }
    if root {
        concat2("/", body.as_str())
    } else {
        body
    }
}

/// Returns true if the given path could reference a file, that is if its
/// last component is a normal name.
///
/// In contrast to `Path::is_file` the file does not need to exist.
pub fn is_valid_file_path(path: &str) -> (r: bool)
    ensures
        r == ends_in_normal_name(path@),
{
    let (_, cur_dir, texts) = components(path);
    let n = texts.len();
    let ghost body = kept_pieces(split_pieces(path@, Seq::empty()));
    proof {
        if starts_with_cur_dir(path@) {
            assert(component_texts(path@).drop_first() =~= body);
        } else {
            assert(component_texts(path@) == body);
        }
    }
    if n == 0 {
        return false;
    }
    let last = texts[n - 1].as_str();
    let is_parent = str_eq(last, "..");
    proof {
        reveal_strlit("..");
        assert(".."@ =~= seq!['.', '.']);
        reveal_strlit(".");
    }
    if cur_dir && n == 1 {
        // only the leading `.`
        proof {
            assert(body.len() == 0);
        }
        return false;
    }
    proof {
        assert(body.len() > 0);
        assert(body.last() == views(texts@).last());
    }
    !is_parent
}

/// The path without its last component, as `Path::parent` gives it on
/// Unix (compared by components).
pub open spec fn parent_of(s: Seq<char>) -> Seq<char> {
    let rest = component_texts(s).drop_last();
    if has_root(s) {
        seq!['/'] + join(rest, seq!['/'])
    } else {
        join(rest, seq!['/'])
    }
}

/// The directory that holds the last component of `path`.
///
/// A path made of a file name alone has the empty path as parent, a file
/// directly below the root has the root.
pub fn parent_path(path: &str) -> (r: String)
    requires
        component_texts(path@).len() > 0,
    ensures
        r@ == parent_of(path@),
{
    let (root, _, texts) = components(path);
    let mut rest = texts;
    rest.pop();
    assert(views(rest@) =~= component_texts(path@).drop_last());
    let body = join_strings(&rest, "/");
    proof {
        reveal_strlit("/");
        assert("/"@ =~= seq!['/']);
    }
    if root {
        concat2("/", body.as_str())
    } else {
        body
    }
}

/// A path that ends in a file name has a parent.
pub proof fn lemma_file_path_has_parent(s: Seq<char>)
    requires
        ends_in_normal_name(s),
    ensures
        component_texts(s).len() > 0,
{
}

/// The text holds no separator.
pub open spec fn no_separator(t: Seq<char>) -> bool {
    forall|i: int| 0 <= i < t.len() ==> t[i] != '/'
}

/// A text without separator is added to the current piece.
proof fn lemma_split_plain(t: Seq<char>, rest: Seq<char>, cur: Seq<char>)
    requires
        no_separator(t),
    ensures
        split_pieces(t + rest, cur) == split_pieces(rest, cur + t),
    decreases t.len(),
{
    if t.len() == 0 {
        assert(t + rest =~= rest);
        assert(cur + t =~= cur);
    } else {
        assert((t + rest)[0] == t[0]);
        assert((t + rest).drop_first() =~= t.drop_first() + rest);
        assert(no_separator(t.drop_first()));
        lemma_split_plain(t.drop_first(), rest, cur.push(t[0]));
        assert(cur.push(t[0]) + t.drop_first() =~= cur + t);
    }
}

/// A separator ends the current piece.
proof fn lemma_split_separator(rest: Seq<char>, cur: Seq<char>)
    ensures
        split_pieces(seq!['/'] + rest, cur) == seq![cur] + split_pieces(rest, Seq::empty()),
{
    assert((seq!['/'] + rest).drop_first() =~= rest);
}

/// The pieces of a text without separator: the text itself.
proof fn lemma_split_single(t: Seq<char>)
    requires
        no_separator(t),
    ensures
        split_pieces(t, Seq::empty()) == seq![t],
{
    lemma_split_plain(t, Seq::empty(), Seq::empty());
    assert(t + Seq::<char>::empty() =~= t);
    assert(Seq::<char>::empty() + t =~= t);
}

/// A join of two or more parts, from the front.
proof fn lemma_join_front(xs: Seq<Seq<char>>, sep: Seq<char>)
    requires
        xs.len() >= 2,
    ensures
        join(xs, sep) == xs[0] + sep + join(xs.drop_first(), sep),
    decreases xs.len(),
{
    let d = xs.drop_last();
    let t = xs.drop_first();
    if xs.len() == 2 {
        assert(d =~= seq![xs[0]]);
        assert(t =~= seq![xs[1]]);
        assert(join(d, sep) == xs[0]);
        assert(join(t, sep) == xs[1]);
        assert(join(xs, sep) == join(d, sep) + sep + xs.last());
    } else {
        lemma_join_front(d, sep);
        assert(d.drop_first() =~= t.drop_last());
        assert(t.last() == xs.last());
        assert(d[0] == xs[0]);
        assert(join(xs, sep) == join(d, sep) + sep + xs.last());
        assert(join(t, sep) == join(t.drop_last(), sep) + sep + t.last());
        assert(join(xs, sep) =~= xs[0] + sep + join(t, sep));
    }
}

/// The pieces of parts joined by separators are the parts.
proof fn lemma_split_join(xs: Seq<Seq<char>>)
    requires
        xs.len() > 0,
        forall|i: int| 0 <= i < xs.len() ==> no_separator(#[trigger] xs[i]),
    ensures
        split_pieces(join(xs, seq!['/']), Seq::empty()) == xs,
    decreases xs.len(),
{
    if xs.len() == 1 {
        lemma_split_single(xs[0]);
        assert(seq![xs[0]] =~= xs);
    } else {
        let rest = xs.drop_first();
        lemma_join_front(xs, seq!['/']);
        assert forall|i: int| 0 <= i < rest.len() implies no_separator(#[trigger] rest[i]) by {
            assert(rest[i] == xs[i + 1]);
        }
        lemma_split_join(rest);
        assert(xs[0] + seq!['/'] + join(rest, seq!['/']) == xs[0] + (seq!['/'] + join(rest, seq!['/'])));
        lemma_split_plain(xs[0], seq!['/'] + join(rest, seq!['/']), Seq::empty());
        lemma_split_separator(join(rest, seq!['/']), Seq::<char>::empty() + xs[0]);
        assert(Seq::<char>::empty() + xs[0] =~= xs[0]);
        assert(seq![xs[0]] + rest =~= xs);
    }
}

/// The pieces of a text hold no separator.
proof fn lemma_split_no_separator(s: Seq<char>, cur: Seq<char>)
    requires
        no_separator(cur),
    ensures
        forall|i: int| 0 <= i < split_pieces(s, cur).len() ==> no_separator(#[trigger] split_pieces(s, cur)[i]),
    decreases s.len(),
{
    if s.len() == 0 {
        assert(split_pieces(s, cur) == seq![cur]);
    } else if s[0] == '/' {
        lemma_split_no_separator(s.drop_first(), Seq::empty());
        let tail = split_pieces(s.drop_first(), Seq::<char>::empty());
        assert(split_pieces(s, cur) == seq![cur] + tail);
        assert forall|i: int| 0 <= i < split_pieces(s, cur).len() implies no_separator(#[trigger] split_pieces(s, cur)[i]) by {
            if i > 0 {
                assert(split_pieces(s, cur)[i] == tail[i - 1]);
            } else {
                assert(split_pieces(s, cur)[i] == cur);
            }
        }
    } else {
        let c = cur.push(s[0]);
        assert forall|j: int| 0 <= j < c.len() implies c[j] != '/' by {
            if j < cur.len() {
                assert(c[j] == cur[j]);
            }
        }
        lemma_split_no_separator(s.drop_first(), c);
        assert(split_pieces(s, cur) == split_pieces(s.drop_first(), c));
    }
}

/// The kept pieces are pieces that name components.
proof fn lemma_kept_named(pieces: Seq<Seq<char>>)
    requires
        forall|i: int| 0 <= i < pieces.len() ==> no_separator(#[trigger] pieces[i]),
    ensures
        forall|i: int| 0 <= i < kept_pieces(pieces).len() ==> no_separator(#[trigger] kept_pieces(pieces)[i])
            && !is_skipped_piece(kept_pieces(pieces)[i]),
    decreases pieces.len(),
{
    if pieces.len() > 0 {
        let rest = pieces.drop_last();
        assert forall|i: int| 0 <= i < rest.len() implies no_separator(#[trigger] rest[i]) by {
            assert(rest[i] == pieces[i]);
        }
        lemma_kept_named(rest);
        let k = kept_pieces(rest);
        if is_skipped_piece(pieces.last()) {
            assert(kept_pieces(pieces) == k);
        } else {
            assert(kept_pieces(pieces) == k.push(pieces.last()));
            assert(no_separator(pieces[pieces.len() - 1]));
            assert forall|i: int| 0 <= i < kept_pieces(pieces).len() implies no_separator(#[trigger] kept_pieces(pieces)[i])
                && !is_skipped_piece(kept_pieces(pieces)[i]) by {
                if i < k.len() {
                    assert(kept_pieces(pieces)[i] == k[i]);
                } else {
                    assert(kept_pieces(pieces)[i] == pieces.last());
                }
            }
        }
    }
}

/// Pieces that all name components are kept.
proof fn lemma_kept_all(xs: Seq<Seq<char>>)
    requires
        forall|i: int| 0 <= i < xs.len() ==> !is_skipped_piece(#[trigger] xs[i]),
    ensures
        kept_pieces(xs) == xs,
    decreases xs.len(),
{
    if xs.len() > 0 {
        let rest = xs.drop_last();
        assert forall|i: int| 0 <= i < rest.len() implies !is_skipped_piece(#[trigger] rest[i]) by {
            assert(rest[i] == xs[i]);
        }
        lemma_kept_all(rest);
        assert(rest.push(xs.last()) =~= xs);
    }
}

/// A skipped piece in front is dropped.
proof fn lemma_kept_skip_front(p: Seq<char>, xs: Seq<Seq<char>>)
    requires
        is_skipped_piece(p),
    ensures
        kept_pieces(seq![p] + xs) == kept_pieces(xs),
    decreases xs.len(),
{
    if xs.len() == 0 {
        assert(seq![p] + xs =~= seq![p]);
        assert(seq![p].drop_last() =~= Seq::<Seq<char>>::empty());
        assert(seq![p].last() == p);
        assert(kept_pieces(seq![p]) == kept_pieces(Seq::<Seq<char>>::empty()));
    } else {
        lemma_kept_skip_front(p, xs.drop_last());
        let a = seq![p] + xs;
        assert(a.drop_last() =~= seq![p] + xs.drop_last());
        assert(a.last() == xs.last());
    }
}

/// Normalizing keeps the path: it starts at the root, or with the current
/// directory, exactly where the path does, and has the same components.
pub proof fn lemma_normalized_components(s: Seq<char>)
    ensures
        has_root(normalized(s)) == has_root(s),
        starts_with_cur_dir(normalized(s)) == starts_with_cur_dir(s),
        component_texts(normalized(s)) == component_texts(s),
{
    reveal_strlit("/");
    let body = kept_pieces(split_pieces(s, Seq::empty()));
    lemma_split_no_separator(s, Seq::empty());
    lemma_kept_named(split_pieces(s, Seq::empty()));
    let n = normalized(s);
    let dot: Seq<char> = seq!['.'];
    if has_root(s) {
        assert(n == seq!['/'] + join(body, seq!['/']));
        lemma_split_separator(join(body, seq!['/']), Seq::empty());
        lemma_kept_skip_front(Seq::empty(), split_pieces(join(body, seq!['/']), Seq::empty()));
        if body.len() > 0 {
            lemma_split_join(body);
        } else {
            assert(join(body, seq!['/']) =~= Seq::<char>::empty());
            lemma_split_single(Seq::empty());
            assert(kept_pieces(seq![Seq::<char>::empty()]) =~= Seq::<Seq<char>>::empty()) by {
                let e = Seq::<char>::empty();
                let one = seq![e];
                assert(one.drop_last() =~= Seq::<Seq<char>>::empty());
                assert(one.last() == e);
                assert(is_skipped_piece(e));
                assert(kept_pieces(Seq::<Seq<char>>::empty()) == Seq::<Seq<char>>::empty());
                assert(kept_pieces(one) == kept_pieces(one.drop_last()));
            }
        }
        lemma_kept_all(body);
        assert(n[0] == '/');
    } else if starts_with_cur_dir(s) {
        let cs = seq![dot] + body;
        assert(component_texts(s) == cs);
        if body.len() > 0 {
            lemma_join_front(cs, seq!['/']);
            assert(cs.drop_first() =~= body);
            assert(n == dot + (seq!['/'] + join(body, seq!['/'])));
            lemma_split_plain(dot, seq!['/'] + join(body, seq!['/']), Seq::empty());
            lemma_split_separator(join(body, seq!['/']), Seq::<char>::empty() + dot);
            assert(Seq::<char>::empty() + dot =~= dot);
            lemma_split_join(body);
            lemma_kept_skip_front(dot, body);
            lemma_kept_all(body);
            assert(n[0] == '.');
            assert(n[1] == '/');
        } else {
            assert(join(cs, seq!['/']) == dot);
            lemma_split_single(dot);
            assert(kept_pieces(seq![dot]) =~= Seq::<Seq<char>>::empty()) by {
                let one = seq![dot];
                assert(one.drop_last() =~= Seq::<Seq<char>>::empty());
                assert(one.last() == dot);
                assert(is_skipped_piece(dot));
                assert(kept_pieces(Seq::<Seq<char>>::empty()) == Seq::<Seq<char>>::empty());
                assert(kept_pieces(one) == kept_pieces(one.drop_last()));
            }
            assert(body =~= Seq::<Seq<char>>::empty());
        }
    } else {
        assert(component_texts(s) == body);
        if body.len() > 0 {
            lemma_split_join(body);
            lemma_kept_all(body);
            assert(no_separator(body[0]));
            assert(!is_skipped_piece(body[0]));
            if body.len() >= 2 {
                lemma_join_front(body, seq!['/']);
            }
            assert(n.subrange(0, body[0].len() as int) =~= body[0]) by {
                if body.len() >= 2 {
                    assert(n == body[0] + seq!['/'] + join(body.drop_first(), seq!['/']));
                } else {
                    assert(n == body[0]);
                }
            }
            assert(n.len() >= body[0].len());
            assert(n[0] == body[0][0]);
            if starts_with_cur_dir(n) {
                if body[0].len() == 1 {
                    assert(body[0] =~= dot);
                } else {
                    assert(n[1] == body[0][1]);
                }
            }
        } else {
            assert(n =~= Seq::<char>::empty());
            lemma_split_single(Seq::empty());
            assert(kept_pieces(seq![Seq::<char>::empty()]) =~= Seq::<Seq<char>>::empty()) by {
                let e = Seq::<char>::empty();
                let one = seq![e];
                assert(one.drop_last() =~= Seq::<Seq<char>>::empty());
                assert(one.last() == e);
                assert(is_skipped_piece(e));
                assert(kept_pieces(Seq::<Seq<char>>::empty()) == Seq::<Seq<char>>::empty());
                assert(kept_pieces(one) == kept_pieces(one.drop_last()));
            }
        }
    }
}

/// A normalized path holds no doubled separator, no `.` component after
/// its start and no trailing separator: every piece between separators
/// after the first names a component. The root path `/` alone, which is
/// its own normal form, ends in a separator.
pub proof fn lemma_normalized_has_no_redundant_pieces(s: Seq<char>)
    requires
        normalized(s) != seq!['/'],
    ensures
        forall|i: int|
            1 <= i < split_pieces(normalized(s), Seq::empty()).len() ==> !is_skipped_piece(
                #[trigger] split_pieces(normalized(s), Seq::empty())[i],
            ),
{
    let body = kept_pieces(split_pieces(s, Seq::empty()));
    lemma_split_no_separator(s, Seq::empty());
    lemma_kept_named(split_pieces(s, Seq::empty()));
    let n = normalized(s);
    let p = split_pieces(n, Seq::empty());
    let dot: Seq<char> = seq!['.'];
    if has_root(s) {
        if body.len() == 0 {
            assert(join(body, seq!['/']) =~= Seq::<char>::empty());
            assert(n =~= seq!['/']);
        }
        lemma_split_separator(join(body, seq!['/']), Seq::empty());
        lemma_split_join(body);
        assert(p == seq![Seq::<char>::empty()] + body);
        assert forall|i: int| 1 <= i < p.len() implies !is_skipped_piece(#[trigger] p[i]) by {
            assert(p[i] == body[i - 1]);
        }
    } else if starts_with_cur_dir(s) {
        let cs = seq![dot] + body;
        assert(component_texts(s) == cs);
        if body.len() > 0 {
            lemma_join_front(cs, seq!['/']);
            assert(cs.drop_first() =~= body);
            assert(n == dot + (seq!['/'] + join(body, seq!['/'])));
            lemma_split_plain(dot, seq!['/'] + join(body, seq!['/']), Seq::empty());
            lemma_split_separator(join(body, seq!['/']), Seq::<char>::empty() + dot);
            assert(Seq::<char>::empty() + dot =~= dot);
            lemma_split_join(body);
            assert(p == seq![dot] + body);
            assert forall|i: int| 1 <= i < p.len() implies !is_skipped_piece(#[trigger] p[i]) by {
                assert(p[i] == body[i - 1]);
            }
        } else {
            assert(cs =~= seq![dot]);
            assert(join(cs, seq!['/']) == dot);
            lemma_split_single(dot);
        }
    } else {
        assert(component_texts(s) == body);
        if body.len() > 0 {
            lemma_split_join(body);
            assert(p == body);
        } else {
            assert(n =~= Seq::<char>::empty());
            lemma_split_single(Seq::empty());
        }
    }
}

/// A path ends in a file name exactly where its normalized path does, so
/// that checking a path before or after normalizing it gives the same
/// answer.
pub proof fn lemma_normalized_keeps_file_name(s: Seq<char>)
    ensures
        ends_in_normal_name(normalized(s)) == ends_in_normal_name(s),
{
    lemma_normalized_components(s);
    let n = normalized(s);
    let bs = kept_pieces(split_pieces(s, Seq::empty()));
    let bn = kept_pieces(split_pieces(n, Seq::empty()));
    if starts_with_cur_dir(s) {
        assert(component_texts(s).drop_first() =~= bs);
        assert(component_texts(n).drop_first() =~= bn);
    }
    assert(bn == bs);
}

/// Normalizing a normalized path changes nothing.
pub proof fn lemma_normalize_idempotent(s: Seq<char>)
    ensures
        normalized(normalized(s)) == normalized(s),
{
    lemma_normalized_components(s);
}

} // verus!
