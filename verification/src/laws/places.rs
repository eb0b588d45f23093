//! Laws on paths, on areas of the screen, and on what a build says of itself.

use vstd::prelude::*;
use crate::build_info::{recorded, BuildInputs};
use crate::build_sha::sha_problem;
use crate::geometry::Rect;
use crate::paths::{components, path_of, pieces, PathView};
use crate::text::{byte_len, decimal, opt_view, trimmed};

verus! {

pub open spec fn has_slash(name: Seq<char>) -> bool {
    exists|i: int| 0 <= i < name.len() && #[trigger] name[i] == '/'
}

proof fn lemma_pieces_go_on(path: Seq<char>, name: Seq<char>)
    requires
        !has_slash(name),
    ensures
        pieces(path).len() > 0,
        pieces(path.push('/') + name) == pieces(path).push(name),
    decreases path.len(), name.len(),
{
    let all = path.push('/') + name;
    if path.len() > 0 {
        lemma_pieces_go_on(path.drop_last(), Seq::empty());
    }
    if name.len() == 0 {
        assert(all =~= path.push('/'));
        assert(all.drop_last() =~= path);
        assert(name =~= Seq::<char>::empty());
    } else {
        let head = name.drop_last();
        assert(!has_slash(head)) by {
            assert forall|i: int| 0 <= i < head.len() implies #[trigger] head[i] != '/' by {
                assert(head[i] == name[i]);
            }
        }
        lemma_pieces_go_on(path, head);
        assert(all.drop_last() =~= path.push('/') + head);
        assert(all.last() == name.last());
        assert(name[name.len() - 1] != '/');
        let before = pieces(path).push(head);
        assert(before.update(before.len() - 1, before.last().push(name.last())) =~= pieces(
            path,
        ).push(head.push(name.last())));
        assert(head.push(name.last()) =~= name);
    }
}

proof fn lemma_first_piece(name: Seq<char>)
    requires
        !has_slash(name),
    ensures
        pieces(name) == seq![name],
    decreases name.len(),
{
    if name.len() == 0 {
        assert(name =~= Seq::<char>::empty());
    } else {
        let head = name.drop_last();
        assert(!has_slash(head)) by {
            assert forall|i: int| 0 <= i < head.len() implies #[trigger] head[i] != '/' by {
                assert(head[i] == name[i]);
            }
        }
        lemma_first_piece(head);
        assert(name[name.len() - 1] != '/');
        let before = seq![head];
        assert(before.update(before.len() - 1, before.last().push(name.last())) =~= seq![
            head.push(name.last()),
        ]);
        assert(head.push(name.last()) =~= name);
    }
}

proof fn lemma_components_of_a_start(a: Seq<Seq<char>>, b: Seq<Seq<char>>, n: int)
    requires
        0 <= n <= a.len(),
        n <= b.len(),
        forall|i: int| 0 <= i < n ==> a[i] == b[i],
    ensures
        components(a, n) == components(b, n),
    decreases n,
{
    if n > 0 {
        lemma_components_of_a_start(a, b, n - 1);
    }
}

/// A path that goes on by a slash and a name leads on to that name; by a slash alone, or a slash and
/// a dot, it leads where it led.
pub proof fn law_a_path_leads_on(path: Seq<char>, name: Seq<char>)
    requires
        !has_slash(name),
    ensures
        path_of(path.push('/') + name).parts == if name.len() == 0 || name == seq!['.'] {
            path_of(path).parts
        } else {
            path_of(path).parts.push(name)
        },
        path_of(path.push('/') + name).rooted <==> path.len() == 0 || path[0] == '/',
{
    let all = path.push('/') + name;
    lemma_pieces_go_on(path, name);
    let n = pieces(path).len() as int;
    lemma_components_of_a_start(pieces(all), pieces(path), n);
    assert(pieces(all)[n] == name);
    assert(all[0] == path.push('/')[0]);
}

/// A path without slashes leads to the name it is, from wherever one is.
pub proof fn law_a_name_leads_to_itself(name: Seq<char>)
    requires
        !has_slash(name),
    ensures
        path_of(name) == (PathView {
            rooted: false,
            parts: if name.len() == 0 {
                Seq::empty()
            } else {
                seq![name]
            },
        }),
{
    lemma_first_piece(name);
    let p = pieces(name);
    assert(components(p, 0) =~= Seq::<Seq<char>>::empty());
    assert(p[0] == name);
    assert(components(p, 1) =~= if name.len() == 0 {
        Seq::empty()
    } else {
        seq![name]
    });
    if name.len() > 0 {
        assert(name[0] != '/');
    }
}

/// An area holds the cells from its corner on, as wide and as high as it is, but for what lies past
/// the last coordinate. An empty one holds none.
pub proof fn law_areas_hold_their_cells(x: u16, y: u16, width: u16, height: u16, col: u16, row: u16)
    ensures
        Rect::spec_new(x, y, width, height).has(col, row) <==> x <= col && col - x < width && col
            < 65535 && y <= row && row - y < height && row < 65535,
        Rect::spec_new(x, y, width, height).x == x,
        Rect::spec_new(x, y, width, height).y == y,
        Rect::spec_new(x, y, width, height).width <= width,
        Rect::spec_new(x, y, width, height).height <= height,
        x + width <= 65535 ==> Rect::spec_new(x, y, width, height).width == width,
        y + height <= 65535 ==> Rect::spec_new(x, y, width, height).height == height,
        !Rect::spec_empty().has(col, row),
{
}

/// A cell is in an area exactly when it is in one of its columns and in one of its rows.
pub proof fn law_cells_of_an_area(area: Rect, col: u16, row: u16)
    ensures
        area.has(col, row) <==> area.has_col(col) && area.has_row(row),
        area.has_col(col) <==> area.x <= col && col - area.x < area.width,
        area.has_row(row) <==> area.y <= row && row - area.y < area.height,
{
}

/// A commit is attested by forty digits of lowercase hexadecimal, and by nothing else.
pub proof fn law_commits_are_forty_hexadecimal_digits(value: Seq<char>)
    ensures
        sha_problem(value) is None <==> value.len() == 40 && forall|i: int|
            0 <= i < value.len() ==> ('0' <= #[trigger] value[i] <= '9' || 'a' <= value[i] <= 'f'),
{
    crate::build_sha::law_only_object_names_are_accepted(value);
}

/// What cannot be attested is told for what it is: empty; marked dirty, with the commit that it was
/// not; of another length, with that length; or of other characters.
pub proof fn law_refused_commits_say_why(value: Seq<char>, commit: Seq<char>)
    ensures
        sha_problem(Seq::empty()) == Some("it is empty, so it names no commit"@),
        sha_problem(commit + seq!['-', 'd', 'i', 'r', 't', 'y']) == Some(
            "it is marked -dirty, so the compiled tree was not commit "@ + commit,
        ),
        value.len() > 0 && !(seq!['-', 'd', 'i', 'r', 't', 'y']).is_suffix_of(value) ==> {
            &&& byte_len(value) != 40 ==> sha_problem(value) == Some(
                "it is "@ + decimal(byte_len(value))
                    + " characters, not a full 40-character git object name"@,
            )
            &&& byte_len(value) == 40 && sha_problem(value) is Some ==> sha_problem(value) == Some(
                "it is not 40 lowercase hexadecimal characters"@,
            )
        },
{
    let mark = seq!['-', 'd', 'i', 'r', 't', 'y'];
    let dirty = commit + mark;
    assert(dirty.subrange(dirty.len() - 6, dirty.len() as int) =~= mark);
    assert(dirty.take(dirty.len() - 6) =~= commit);
}

/// A build on the stable channel, or with no channel to speak of, has its base version; one on any
/// other has the channel after it, and its id after that where it has one. The version line shows
/// the commit in brackets where there is one.
pub proof fn law_builds_say_what_they_are(build: BuildInputs)
    ensures
        build.channel is None ==> build.spec_version() == build.base_version@,
        build.channel matches Some(c) ==> {
            &&& trimmed(c@).len() == 0 || trimmed(c@) == "stable"@ ==> build.spec_version()
                == build.base_version@
            &&& trimmed(c@).len() > 0 ==> build.spec_channel() == trimmed(c@)
            &&& trimmed(c@).len() > 0 && trimmed(c@) != "stable"@ ==> build.spec_version()
                == build.base_version@ + "-"@ + trimmed(c@) + match build.build_id {
                Some(id) => if trimmed(id@).len() == 0 {
                    Seq::empty()
                } else {
                    "."@ + trimmed(id@)
                },
                None => Seq::empty(),
            }
        },
        build.spec_version_line() == "zynk "@ + build.spec_version() + match build.build_sha {
            Some(sha) => if trimmed(sha@).len() == 0 {
                Seq::empty()
            } else {
                " ("@ + trimmed(sha@) + ")"@
            },
            None => Seq::empty(),
        },
{
    let head = build.base_version@ + "-"@ + build.spec_channel();
    assert(head + Seq::<char>::empty() =~= head);
    if let Some(id) = recorded(opt_view(build.build_id)) {
        assert(head + "."@ + id =~= head + ("."@ + id));
    }
    let line = "zynk "@ + build.spec_version();
    assert(line + Seq::<char>::empty() =~= line);
    if let Some(sha) = recorded(opt_view(build.build_sha)) {
        assert(line + " ("@ + sha + ")"@ =~= line + (" ("@ + sha + ")"@));
    }
}

} // verus!
