//! Unix paths as text.
//!
//! A path is read as a sequence of components, the way `std::path` reads it:
//! repeated and trailing slashes do not count, nor does a `.` except at the
//! head of a relative path.
use vstd::prelude::*;

use crate::text;

verus! {

/// One component of a path.
#[derive(Debug)]
pub enum Component {
    /// The leading slash.
    RootDir,
    /// A `.` at the head.
    CurDir,
    /// A `..`.
    ParentDir,
    /// A name.
    Normal(String),
}

/// What a [`Component`] stands for.
pub enum ComponentView {
    RootDir,
    CurDir,
    ParentDir,
    Normal(Seq<char>),
}

impl View for Component {
    type V = ComponentView;

    open spec fn view(&self) -> ComponentView {
        match self {
            Component::RootDir => ComponentView::RootDir,
            Component::CurDir => ComponentView::CurDir,
            Component::ParentDir => ComponentView::ParentDir,
            Component::Normal(name) => ComponentView::Normal(name@),
        }
    }
}

/// The views of a sequence of components.
pub open spec fn comp_views(comps: Seq<Component>) -> Seq<ComponentView> {
    Seq::new(comps.len(), |i: int| comps[i]@)
}

/// A path that begins at the root.
pub open spec fn is_absolute(path: Seq<char>) -> bool {
    path.len() > 0 && path[0] == '/'
}

/// The components that the pieces between slashes amount to.
pub open spec fn piece_components(pieces: Seq<Seq<char>>) -> Seq<ComponentView>
    decreases pieces.len(),
{
    if pieces.len() == 0 {
        Seq::empty()
    } else {
        let before = piece_components(pieces.drop_last());
        let piece = pieces.last();
        if piece.len() == 0 {
            before
        } else if piece == seq!['.'] {
            if pieces.len() == 1 {
                before.push(ComponentView::CurDir)
            } else {
                before
            }
        } else if piece == seq!['.', '.'] {
            before.push(ComponentView::ParentDir)
        } else {
            before.push(ComponentView::Normal(piece))
        }
    }
}

/// The root of an absolute path.
pub open spec fn root_component(path: Seq<char>) -> Seq<ComponentView> {
    if is_absolute(path) {
        seq![ComponentView::RootDir]
    } else {
        Seq::empty()
    }
}

/// The components of a path.
pub open spec fn components(path: Seq<char>) -> Seq<ComponentView> {
    root_component(path) + piece_components(text::split_on(path, '/'))
}

/// Whether the components of `path` begin with those of `base`.
pub open spec fn path_starts_with(path: Seq<char>, base: Seq<char>) -> bool {
    let p = components(path);
    let b = components(base);
    b.len() <= p.len() && p.subrange(0, b.len() as int) == b
}

/// Components with each `.` left out and each `..` taken together with the name
/// before it. A `..` without a name before it stays.
pub open spec fn collapsed(comps: Seq<ComponentView>) -> Seq<ComponentView>
    decreases comps.len(),
{
    if comps.len() == 0 {
        Seq::empty()
    } else {
        let out = collapsed(comps.drop_last());
        match comps.last() {
            ComponentView::ParentDir => if out.len() > 0 && out.last() is Normal {
                out.drop_last()
            } else {
                out.push(ComponentView::ParentDir)
            },
            ComponentView::CurDir => out,
            other => out.push(other),
        }
    }
}

/// The text of a component.
pub open spec fn comp_text(c: ComponentView) -> Seq<char> {
    match c {
        ComponentView::RootDir => seq!['/'],
        ComponentView::CurDir => seq!['.'],
        ComponentView::ParentDir => seq!['.', '.'],
        ComponentView::Normal(name) => name,
    }
}

/// A path with one more part at its end. An absolute part replaces the path.
pub open spec fn joined_path(base: Seq<char>, part: Seq<char>) -> Seq<char> {
    if is_absolute(part) {
        part
    } else if base.len() > 0 && base.last() != '/' {
        base.push('/') + part
    } else {
        base + part
    }
}

/// The path that is made of the components.
pub open spec fn rendered(comps: Seq<ComponentView>) -> Seq<char>
    decreases comps.len(),
{
    if comps.len() == 0 {
        Seq::empty()
    } else {
        joined_path(rendered(comps.drop_last()), comp_text(comps.last()))
    }
}

/// A path with `.` and `..` taken out without a look at the file system.
pub open spec fn lexically_resolved(path: Seq<char>) -> Seq<char> {
    rendered(collapsed(components(path)))
}

/// The last component, where it is a name.
pub open spec fn file_name_of(path: Seq<char>) -> Option<Seq<char>> {
    let comps = components(path);
    if comps.len() > 0 {
        match comps.last() {
            ComponentView::Normal(name) => Some(name),
            _ => None,
        }
    } else {
        None
    }
}

/// What follows the last dot of a file name, where something stands before it.
pub open spec fn extension_of(path: Seq<char>) -> Option<Seq<char>> {
    match file_name_of(path) {
        None => None,
        Some(name) => {
            let parts = text::split_on(name, '.');
            if parts.len() == 1 || (parts.len() == 2 && parts[0].len() == 0) {
                None
            } else {
                Some(parts.last())
            }
        },
    }
}

/// Reads a path as components.
pub fn parse_components(path: &str) -> (r: Vec<Component>)
    ensures
        comp_views(r@) == components(path@),
{
    let pieces = text::split(path, '/');
    let ghost cut = text::split_on(path@, '/');
    let mut r: Vec<Component> = Vec::new();
    if text::starts_with(path, "/") {
        r.push(Component::RootDir);
    }
    proof {
        reveal_strlit("/");
        reveal_strlit(".");
        reveal_strlit("..");
        assert("."@ =~= seq!['.']);
        assert(".."@ =~= seq!['.', '.']);
        if is_absolute(path@) {
            assert(path@.subrange(0, 1) =~= "/"@);
        }
        if text::has_prefix(path@, "/"@) {
            assert(path@.subrange(0, 1)[0] == path@[0]);
        }
        assert(comp_views(r@) =~= root_component(path@) + piece_components(cut.subrange(0, 0)));
    }
    let mut i: usize = 0;
    while i < pieces.len()
        invariant
            i <= pieces.len(),
            cut == text::views(pieces@),
            "."@ == seq!['.'],
            ".."@ == seq!['.', '.'],
            comp_views(r@) == root_component(path@) + piece_components(cut.subrange(0, i as int)),
        decreases pieces.len() - i,
    {
        let piece: &String = &pieces[i];
        let ghost earlier = r@;
        let ghost known = piece_components(cut.subrange(0, i as int));
        if piece.as_str().is_empty() {
        } else if text::str_eq(piece.as_str(), ".") {
            if i == 0 {
                r.push(Component::CurDir);
            }
        } else if text::str_eq(piece.as_str(), "..") {
            r.push(Component::ParentDir);
        } else {
            r.push(Component::Normal(piece.clone()));
        }
        i += 1;
        proof {
            let seen = cut.subrange(0, i as int);
            assert(seen.drop_last() =~= cut.subrange(0, i - 1));
            assert(seen.last() == piece@);
            if r@.len() > earlier.len() {
                assert(comp_views(r@) =~= comp_views(earlier).push(r@.last()@));
                assert(root_component(path@) + known.push(r@.last()@) =~= (root_component(path@)
                    + known).push(r@.last()@));
            }
        }
    }
    assert(cut.subrange(0, i as int) =~= cut);
    r
}

/// Whether a path begins at the root.
pub fn absolute(path: &str) -> (r: bool)
    ensures
        r == is_absolute(path@),
{
    proof {
        reveal_strlit("/");
        if is_absolute(path@) {
            assert(path@.subrange(0, 1) =~= "/"@);
        }
        if text::has_prefix(path@, "/"@) {
            assert(path@.subrange(0, 1)[0] == path@[0]);
        }
    }
    text::starts_with(path, "/")
}

/// Whether two components are the same.
fn same_component(a: &Component, b: &Component) -> (r: bool)
    ensures
        r == (a@ == b@),
{
    match (a, b) {
        (Component::RootDir, Component::RootDir) => true,
        (Component::CurDir, Component::CurDir) => true,
        (Component::ParentDir, Component::ParentDir) => true,
        (Component::Normal(x), Component::Normal(y)) => text::str_eq(x.as_str(), y.as_str()),
        _ => false,
    }
}

/// Whether the components of `path` begin with those of `base`.
pub fn starts_with(path: &str, base: &str) -> (r: bool)
    ensures
        r == path_starts_with(path@, base@),
{
    let p = parse_components(path);
    let b = parse_components(base);
    if b.len() > p.len() {
        return false;
    }
    let mut i: usize = 0;
    while i < b.len()
        invariant
            i <= b@.len() <= p@.len(),
            comp_views(p@) == components(path@),
            comp_views(b@) == components(base@),
            comp_views(p@).subrange(0, i as int) == comp_views(b@).subrange(0, i as int),
        decreases b@.len() - i,
    {
        if !same_component(&p[i], &b[i]) {
            proof {
                assert(comp_views(p@).subrange(0, b@.len() as int)[i as int] != comp_views(
                    b@,
                )[i as int]);
            }
            return false;
        }
        i += 1;
        proof {
            assert(comp_views(p@).subrange(0, i as int) =~= comp_views(p@).subrange(0, i - 1).push(
                p@[i - 1]@,
            ));
            assert(comp_views(b@).subrange(0, i as int) =~= comp_views(b@).subrange(0, i - 1).push(
                b@[i - 1]@,
            ));
        }
    }
    assert(comp_views(b@).subrange(0, i as int) =~= comp_views(b@));
    true
}

/// Whether one of the components of a path is the given name.
pub fn has_name(path: &str, name: &str) -> (r: bool)
    ensures
        r == components(path@).contains(ComponentView::Normal(name@)),
{
    let comps = parse_components(path);
    let ghost views = components(path@);
    let mut i: usize = 0;
    while i < comps.len()
        invariant
            i <= comps@.len(),
            views == comp_views(comps@),
            views == components(path@),
            forall|j: int| 0 <= j < i ==> #[trigger] views[j] != ComponentView::Normal(name@),
        decreases comps@.len() - i,
    {
        match &comps[i] {
            Component::Normal(found) => {
                if text::str_eq(found.as_str(), name) {
                    assert(views[i as int] == ComponentView::Normal(name@));
                    return true;
                }
            },
            _ => {},
        }
        i += 1;
    }
    false
}

/// A path with one more part at its end.
pub fn join(base: &str, part: &str) -> (r: String)
    ensures
        r@ == joined_path(base@, part@),
{
    if absolute(part) {
        return part.to_owned();
    }
    let chars = text::chars_of(base);
    let mut r = base.to_owned();
    if chars.len() > 0 && chars[chars.len() - 1] != '/' {
        proof {
            reveal_strlit("/");
            assert(base@ + "/"@ =~= base@.push('/'));
        }
        r.append("/");
    }
    r.append(part);
    r
}

fn component_text(c: &Component) -> (r: String)
    ensures
        r@ == comp_text(c@),
{
    proof {
        reveal_strlit("/");
        reveal_strlit(".");
        reveal_strlit("..");
        assert("/"@ =~= seq!['/']);
        assert("."@ =~= seq!['.']);
        assert(".."@ =~= seq!['.', '.']);
    }
    match c {
        Component::RootDir => "/".to_owned(),
        Component::CurDir => ".".to_owned(),
        Component::ParentDir => "..".to_owned(),
        Component::Normal(name) => name.clone(),
    }
}

/// Takes `.` and `..` out of a path without a look at the file system.
pub fn lexical_resolve(path: &str) -> (r: String)
    ensures
        r@ == lexically_resolved(path@),
{
    let comps = parse_components(path);
    let ghost listed = components(path@);
    let mut out: Vec<Component> = Vec::new();
    let mut i: usize = 0;
    assert(comp_views(out@) =~= collapsed(listed.subrange(0, 0)));
    while i < comps.len()
        invariant
            i <= comps@.len(),
            listed == comp_views(comps@),
            comp_views(out@) == collapsed(listed.subrange(0, i as int)),
        decreases comps@.len() - i,
    {
        let ghost before = out@;
        match &comps[i] {
            Component::ParentDir => {
                let after_name = if out.len() > 0 {
                    match &out[out.len() - 1] {
                        Component::Normal(_) => true,
                        _ => false,
                    }
                } else {
                    false
                };
                if after_name {
                    out.pop();
                    assert(comp_views(out@) =~= comp_views(before).drop_last());
                } else {
                    out.push(Component::ParentDir);
                    assert(comp_views(out@) =~= comp_views(before).push(ComponentView::ParentDir));
                }
            },
            Component::CurDir => {},
            Component::RootDir => {
                out.push(Component::RootDir);
                assert(comp_views(out@) =~= comp_views(before).push(ComponentView::RootDir));
            },
            Component::Normal(name) => {
                out.push(Component::Normal(name.clone()));
                assert(comp_views(out@) =~= comp_views(before).push(ComponentView::Normal(name@)));
            },
        }
        i += 1;
        proof {
            let seen = listed.subrange(0, i as int);
            assert(seen.drop_last() =~= listed.subrange(0, i - 1));
            assert(seen.last() == comps@[i - 1]@);
        }
    }
    assert(listed.subrange(0, i as int) =~= listed);
    let ghost kept = comp_views(out@);
    let mut r = String::new();
    let mut j: usize = 0;
    assert(r@ =~= rendered(kept.subrange(0, 0)));
    while j < out.len()
        invariant
            j <= out@.len(),
            kept == comp_views(out@),
            r@ == rendered(kept.subrange(0, j as int)),
        decreases out@.len() - j,
    {
        let part = component_text(&out[j]);
        r = join(r.as_str(), part.as_str());
        j += 1;
        proof {
            let seen = kept.subrange(0, j as int);
            assert(seen.drop_last() =~= kept.subrange(0, j - 1));
            assert(seen.last() == out@[j - 1]@);
        }
    }
    assert(kept.subrange(0, j as int) =~= kept);
    r
}

/// The extension of a file name.
pub fn extension(path: &str) -> (r: Option<String>)
    ensures
        text::opt_view(r) == extension_of(path@),
{
    let comps = parse_components(path);
    assert(comp_views(comps@).len() == comps@.len());
    if comps.len() == 0 {
        return None;
    }
    assert(comp_views(comps@).last() == comps@.last()@);
    match &comps[comps.len() - 1] {
        Component::Normal(name) => {
            let parts = text::split(name.as_str(), '.');
            let ghost cut = text::split_on(name@, '.');
            assert(cut.len() == parts@.len());
            assert(cut[0] == parts@[0]@);
            assert(cut.last() == parts@.last()@);
            if parts.len() == 1 || (parts.len() == 2 && parts[0].as_str().is_empty()) {
                None
            } else {
                Some(parts[parts.len() - 1].clone())
            }
        },
        _ => None,
    }
}

/// A name that a component can have.
pub open spec fn plain_name(name: Seq<char>) -> bool {
    &&& name.len() > 0
    &&& name != seq!['.']
    &&& name != seq!['.', '.']
    &&& forall|i: int| 0 <= i < name.len() ==> #[trigger] name[i] != '/'
}

/// Components in an order in which a path can have them.
pub open spec fn proper(comps: Seq<ComponentView>) -> bool {
    forall|i: int|
        0 <= i < comps.len() ==> match #[trigger] comps[i] {
            ComponentView::RootDir => i == 0,
            ComponentView::CurDir => i == 0,
            ComponentView::ParentDir => true,
            ComponentView::Normal(name) => plain_name(name),
        }
}

/// No `.`, and after a name only names.
pub open spec fn settled(comps: Seq<ComponentView>) -> bool {
    &&& forall|i: int| 0 <= i < comps.len() ==> !(#[trigger] comps[i] is CurDir)
    &&& forall|i: int, j: int|
        0 <= i < j < comps.len() && #[trigger] comps[i] is Normal ==> #[trigger] comps[j] is Normal
}

/// No piece holds a separator, and there is at least one piece.
proof fn lemma_pieces_hold_no_slash(s: Seq<char>)
    ensures
        text::split_on(s, '/').len() > 0,
        forall|i: int, j: int|
            0 <= i < text::split_on(s, '/').len() && 0 <= j < text::split_on(s, '/')[i].len()
                ==> #[trigger] text::split_on(s, '/')[i][j] != '/',
        is_absolute(s) ==> text::split_on(s, '/')[0].len() == 0,
    decreases s.len(),
{
    if s.len() > 0 {
        let before = text::split_on(s.drop_last(), '/');
        let all = text::split_on(s, '/');
        lemma_pieces_hold_no_slash(s.drop_last());
        assert forall|i: int, j: int| 0 <= i < all.len() && 0 <= j < all[i].len() implies
            #[trigger] all[i][j] != '/' by {
            if i < before.len() {
                if s.last() == '/' || i < before.len() - 1 {
                    assert(all[i] == before[i]);
                } else if j < before.last().len() {
                    assert(all[i][j] == before[i][j]);
                }
            }
        }
        if is_absolute(s) {
            if s.len() == 1 {
                assert(s.drop_last() =~= Seq::empty());
                assert(all[0] == before[0]);
            } else {
                assert(s.drop_last()[0] == s[0]);
                if before.len() == 1 && s.last() != '/' {
                    // An absolute path of two characters or more has two pieces.
                    lemma_absolute_has_two_pieces(s.drop_last());
                }
                assert(all[0] == before[0]);
            }
        }
    }
}

proof fn lemma_absolute_has_two_pieces(s: Seq<char>)
    requires
        is_absolute(s),
    ensures
        text::split_on(s, '/').len() > 1,
    decreases s.len(),
{
    if s.len() == 1 {
        assert(s.drop_last() =~= Seq::empty());
        assert(text::split_on(s.drop_last(), '/').len() == 1);
    } else {
        assert(s.drop_last()[0] == s[0]);
        lemma_absolute_has_two_pieces(s.drop_last());
    }
}

proof fn lemma_piece_components_proper(pieces: Seq<Seq<char>>)
    requires
        forall|i: int, j: int|
            0 <= i < pieces.len() && 0 <= j < pieces[i].len() ==> #[trigger] pieces[i][j] != '/',
    ensures
        proper(piece_components(pieces)),
        forall|i: int|
            0 <= i < piece_components(pieces).len() ==> !(#[trigger] piece_components(
                pieces,
            )[i] is RootDir),
        pieces.len() > 0 && pieces[0].len() == 0 ==> forall|i: int|
            0 <= i < piece_components(pieces).len() ==> !(#[trigger] piece_components(
                pieces,
            )[i] is CurDir),
        piece_components(pieces).len() <= pieces.len(),
    decreases pieces.len(),
{
    if pieces.len() > 0 {
        let before = pieces.drop_last();
        assert forall|i: int, j: int| 0 <= i < before.len() && 0 <= j < before[i].len() implies
            #[trigger] before[i][j] != '/' by {
            assert(before[i] == pieces[i]);
        }
        lemma_piece_components_proper(before);
        let piece = pieces.last();
        assert forall|j: int| 0 <= j < piece.len() implies #[trigger] piece[j] != '/' by {
            assert(pieces[pieces.len() - 1][j] != '/');
        }
        if pieces.len() > 1 {
            assert(before[0] == pieces[0]);
        } else {
            assert(piece_components(before).len() == 0);
        }
    }
}

/// The components of any path stand in a proper order.
proof fn lemma_components_proper(path: Seq<char>)
    ensures
        proper(components(path)),
{
    lemma_pieces_hold_no_slash(path);
    let pieces = text::split_on(path, '/');
    lemma_piece_components_proper(pieces);
    let comps = components(path);
    let tail = piece_components(pieces);
    if is_absolute(path) {
        assert forall|i: int| 0 <= i < comps.len() implies match #[trigger] comps[i] {
            ComponentView::RootDir => i == 0,
            ComponentView::CurDir => i == 0,
            ComponentView::ParentDir => true,
            ComponentView::Normal(name) => plain_name(name),
        } by {
            if i > 0 {
                assert(comps[i] == tail[i - 1]);
            }
        }
    } else {
        assert(comps =~= tail);
    }
}

/// Collapsing leaves components in a proper order, with names after names.
proof fn lemma_collapsed_settled(comps: Seq<ComponentView>)
    requires
        proper(comps),
    ensures
        proper(collapsed(comps)),
        settled(collapsed(comps)),
        collapsed(comps).len() <= comps.len(),
        comps.len() > 0 && comps[0] is RootDir ==> collapsed(comps).len() > 0 && collapsed(
            comps,
        )[0] is RootDir,
    decreases comps.len(),
{
    if comps.len() > 0 {
        let before = comps.drop_last();
        assert forall|i: int| 0 <= i < before.len() implies match #[trigger] before[i] {
            ComponentView::RootDir => i == 0,
            ComponentView::CurDir => i == 0,
            ComponentView::ParentDir => true,
            ComponentView::Normal(name) => plain_name(name),
        } by {
            assert(before[i] == comps[i]);
        }
        lemma_collapsed_settled(before);
        let out = collapsed(before);
        let last = comps[comps.len() - 1];
        assert(last == comps.last());
        if comps.len() > 1 {
            assert(before[0] == comps[0]);
        }
        match last {
            ComponentView::ParentDir => {
                if out.len() > 0 && out.last() is Normal {
                } else {
                    let all = collapsed(comps);
                    assert(all == out.push(ComponentView::ParentDir));
                    assert forall|i: int, j: int|
                        0 <= i < j < all.len() && #[trigger] all[i] is Normal implies
                        #[trigger] all[j] is Normal by {
                        // The last of `out` is no name, so none before it is.
                        if j == all.len() - 1 {
                            assert(out[i] is Normal);
                            if i < out.len() - 1 {
                                assert(out[out.len() - 1] is Normal);
                            }
                        } else {
                            assert(out[i] is Normal);
                            assert(out[j] is Normal);
                        }
                    }
                }
            },
            ComponentView::CurDir => {},
            ComponentView::RootDir => {
                assert(out.len() == 0);
            },
            ComponentView::Normal(_) => {},
        }
    }
}

/// Cutting a text that goes on without a separator.
proof fn lemma_split_append(s: Seq<char>, name: Seq<char>)
    requires
        forall|i: int| 0 <= i < name.len() ==> #[trigger] name[i] != '/',
    ensures
        text::split_on(s + name, '/') == text::split_on(s, '/').drop_last().push(
            text::split_on(s, '/').last() + name,
        ),
    decreases name.len(),
{
    lemma_pieces_hold_no_slash(s);
    let cut = text::split_on(s, '/');
    if name.len() == 0 {
        assert(s + name =~= s);
        assert(cut.last() + name =~= cut.last());
        assert(cut.drop_last().push(cut.last()) =~= cut);
    } else {
        let shorter = name.drop_last();
        assert forall|i: int| 0 <= i < shorter.len() implies #[trigger] shorter[i] != '/' by {
            assert(shorter[i] == name[i]);
        }
        lemma_split_append(s, shorter);
        assert((s + name).drop_last() =~= s + shorter);
        assert((s + name).last() == name[name.len() - 1]);
        let before = cut.drop_last().push(cut.last() + shorter);
        assert(before.drop_last() =~= cut.drop_last());
        assert((cut.last() + shorter).push(name.last()) =~= cut.last() + name);
    }
}

/// A path made of settled components reads as those components.
proof fn lemma_rendered_reads_back(comps: Seq<ComponentView>)
    requires
        proper(comps),
        settled(comps),
    ensures
        components(rendered(comps)) == comps,
        comps.len() > 0 ==> rendered(comps).len() > 0,
        comps.len() > 0 && comps.last() is RootDir ==> rendered(comps) == seq!['/'],
        comps.len() > 0 && !(comps.last() is RootDir) ==> rendered(comps).last() != '/',
    decreases comps.len(),
{
    let path = rendered(comps);
    if comps.len() == 0 {
        assert(text::split_on(path, '/') =~= seq![Seq::empty()]);
        reveal_with_fuel(piece_components, 2);
        assert(seq![Seq::<char>::empty()].drop_last() =~= Seq::empty());
        assert(components(path) =~= comps);
    } else {
        let before = comps.drop_last();
        let last = comps[comps.len() - 1];
        assert(last == comps.last());
        assert forall|i: int| 0 <= i < before.len() implies match #[trigger] before[i] {
            ComponentView::RootDir => i == 0,
            ComponentView::CurDir => i == 0,
            ComponentView::ParentDir => true,
            ComponentView::Normal(name) => plain_name(name),
        } by {
            assert(before[i] == comps[i]);
        }
        assert(settled(before)) by {
            assert forall|i: int| 0 <= i < before.len() implies !(#[trigger] before[i] is CurDir) by {
                assert(before[i] == comps[i]);
            }
            assert forall|i: int, j: int|
                0 <= i < j < before.len() && #[trigger] before[i] is Normal implies
                #[trigger] before[j] is Normal by {
                assert(before[i] == comps[i]);
                assert(before[j] == comps[j]);
            }
        }
        lemma_rendered_reads_back(before);
        let base = rendered(before);
        let name = comp_text(last);
        if last is RootDir {
            assert(before.len() == 0);
            assert(path =~= seq!['/']);
            assert(path.drop_last() =~= Seq::empty());
            reveal_with_fuel(text::split_on, 2);
            reveal_with_fuel(piece_components, 3);
            let pieces = text::split_on(path, '/');
            assert(pieces =~= seq![Seq::empty(), Seq::empty()]);
            assert(pieces.drop_last().drop_last() =~= Seq::empty());
            assert(components(path) =~= comps);
        } else {
            assert forall|i: int| 0 <= i < name.len() implies #[trigger] name[i] != '/' by {}
            assert(!(last is CurDir));
            assert(name.len() > 0);
            assert(!is_absolute(name)) by {
                assert(name[0] != '/');
            }
            lemma_pieces_hold_no_slash(base);
            let cut = text::split_on(base, '/');
            let all = text::split_on(path, '/');
            if before.len() > 0 && !(before.last() is RootDir) {
                let with = base.push('/');
                assert(with.drop_last() =~= base);
                lemma_split_append(with, name);
                assert(text::split_on(with, '/') == cut.push(Seq::empty()));
                assert(cut.push(Seq::empty()).drop_last() =~= cut);
                assert(Seq::<char>::empty() + name =~= name);
                assert(all =~= cut.push(name));
                assert(path[0] == base[0]);
            } else {
                lemma_split_append(base, name);
                if before.len() == 0 {
                    assert(base =~= Seq::empty());
                    assert(cut =~= seq![Seq::empty()]);
                } else {
                    assert(before.len() == 1) by {
                        assert(before[before.len() - 1] is RootDir);
                    }
                    reveal_with_fuel(text::split_on, 2);
                    assert(base.drop_last() =~= Seq::empty());
                    assert(cut =~= seq![Seq::empty(), Seq::empty()]);
                }
                assert(Seq::<char>::empty() + name =~= name);
                assert(all =~= cut.drop_last().push(name));
                assert(cut.drop_last().push(Seq::empty()) =~= cut);
            }
            assert(all.last() == name);
            assert(path.last() == name.last());
            assert(is_absolute(path) == is_absolute(base)) by {
                if base.len() > 0 {
                    assert(path[0] == base[0]);
                } else {
                    assert(path =~= name);
                }
            }
            // What the pieces before the name amount to did not change.
            let earlier = all.drop_last();
            assert(piece_components(earlier) == piece_components(cut)) by {
                if before.len() > 0 && !(before.last() is RootDir) {
                    assert(earlier =~= cut);
                } else {
                    assert(earlier =~= cut.drop_last());
                    assert(cut.last().len() == 0);
                }
            }
            assert(piece_components(all) == piece_components(cut).push(last));
            assert(components(path) =~= components(base).push(last));
            assert(before.push(last) =~= comps);
        }
    }
}

/// Taking `.` and `..` out of a path is done once and for all: the result reads
/// as the collapsed components, in which nothing is left to collapse after a
/// name.
pub proof fn law_lexical_resolution(path: Seq<char>)
    ensures
        components(lexically_resolved(path)) == collapsed(components(path)),
        settled(components(lexically_resolved(path))),
{
    lemma_components_proper(path);
    lemma_collapsed_settled(components(path));
    lemma_rendered_reads_back(collapsed(components(path)));
}

/// In settled components there is nothing to collapse.
proof fn lemma_settled_stays(comps: Seq<ComponentView>)
    requires
        settled(comps),
    ensures
        collapsed(comps) == comps,
    decreases comps.len(),
{
    if comps.len() > 0 {
        let before = comps.drop_last();
        assert forall|i: int| 0 <= i < before.len() implies !(#[trigger] before[i] is CurDir) by {
            assert(before[i] == comps[i]);
        }
        assert forall|i: int, j: int|
            0 <= i < j < before.len() && #[trigger] before[i] is Normal implies
            #[trigger] before[j] is Normal by {
            assert(before[i] == comps[i]);
            assert(before[j] == comps[j]);
        }
        lemma_settled_stays(before);
        let last = comps[comps.len() - 1];
        assert(last == comps.last());
        if before.len() > 0 {
            assert(before.last() == comps[comps.len() - 2]);
        }
        assert(before.push(last) =~= comps);
    } else {
        assert(comps =~= Seq::empty());
    }
}

/// The pieces between slashes give no root.
proof fn lemma_no_root_in_pieces(pieces: Seq<Seq<char>>)
    ensures
        forall|i: int|
            0 <= i < piece_components(pieces).len() ==> !(#[trigger] piece_components(
                pieces,
            )[i] is RootDir),
    decreases pieces.len(),
{
    if pieces.len() > 0 {
        lemma_no_root_in_pieces(pieces.drop_last());
    }
}

/// A path begins at the root exactly where a component of it is the root.
proof fn lemma_root_tells_absolute(path: Seq<char>)
    ensures
        is_absolute(path) ==> components(path).len() > 0 && components(path)[0] is RootDir,
        !is_absolute(path) ==> rootless(components(path)),
{
    lemma_no_root_in_pieces(text::split_on(path, '/'));
    if !is_absolute(path) {
        assert(components(path) =~= piece_components(text::split_on(path, '/')));
    }
}

/// No component is the root.
spec fn rootless(comps: Seq<ComponentView>) -> bool {
    forall|i: int| 0 <= i < comps.len() ==> !(#[trigger] comps[i] is RootDir)
}

/// Collapsing brings in no root.
proof fn lemma_no_root_appears(comps: Seq<ComponentView>)
    ensures
        rootless(comps) ==> rootless(collapsed(comps)),
    decreases comps.len(),
{
    if comps.len() > 0 && rootless(comps) {
        let before = comps.drop_last();
        assert forall|i: int| 0 <= i < before.len() implies !(#[trigger] before[i] is RootDir) by {
            assert(before[i] == comps[i]);
        }
        lemma_no_root_appears(before);
        assert(comps.last() == comps[comps.len() - 1]);
    }
}

/// Resolving a path twice is resolving it once, and the path begins at the root
/// exactly where it did so before.
pub proof fn law_resolving_again_changes_nothing(path: Seq<char>)
    ensures
        lexically_resolved(lexically_resolved(path)) == lexically_resolved(path),
        is_absolute(lexically_resolved(path)) == is_absolute(path),
{
    law_lexical_resolution(path);
    lemma_settled_stays(collapsed(components(path)));
    lemma_components_proper(path);
    lemma_collapsed_settled(components(path));
    lemma_root_tells_absolute(path);
    lemma_root_tells_absolute(lexically_resolved(path));
    lemma_no_root_appears(components(path));
}

/// A path whose resolution begins with a directory lies inside it: what follows
/// are names alone, with no `..` that could lead out again.
pub proof fn law_resolved_inside_stays_inside(path: Seq<char>, base: Seq<char>)
    requires
        components(base).len() > 0,
        components(base).last() is Normal,
        path_starts_with(lexically_resolved(path), base),
    ensures
        forall|i: int|
            components(base).len() <= i < components(lexically_resolved(path)).len()
                ==> #[trigger] components(lexically_resolved(path))[i] is Normal,
{
    law_lexical_resolution(path);
    let p = components(lexically_resolved(path));
    let b = components(base);
    assert(p.subrange(0, b.len() as int)[b.len() - 1] == p[b.len() - 1]);
}

/// One more piece behind a slash is one more piece.
proof fn lemma_one_more_piece(p: Seq<char>, piece: Seq<char>)
    requires
        p.len() > 0,
        forall|i: int| 0 <= i < piece.len() ==> #[trigger] piece[i] != '/',
    ensures
        text::split_on(p + seq!['/'] + piece, '/') == text::split_on(p, '/').push(piece),
        root_component(p + seq!['/'] + piece) == root_component(p),
{
    let longer = p + seq!['/'];
    assert(longer.drop_last() =~= p);
    assert(longer.last() == '/');
    lemma_split_append(longer, piece);
    let pieces = text::split_on(p, '/');
    assert(pieces.push(Seq::<char>::empty()).drop_last() =~= pieces);
    assert(Seq::<char>::empty() + piece =~= piece);
    assert((p + seq!['/'] + piece)[0] == p[0]);
}

/// A path is read piece by piece: a name behind a slash is one component more,
/// `..` is a step up, and `.` and a slash at the end are nothing.
pub proof fn law_components_add_up(p: Seq<char>, name: Seq<char>)
    requires
        p.len() > 0,
        plain_name(name),
    ensures
        components(p + seq!['/'] + name) == components(p).push(ComponentView::Normal(name)),
        components(p + seq!['/'] + seq!['.', '.']) == components(p).push(ComponentView::ParentDir),
        components(p + seq!['/'] + seq!['.']) == components(p),
        components(p + seq!['/']) == components(p),
{
    let pieces = text::split_on(p, '/');
    text::law_split_and_join(p, '/');
    lemma_one_more_piece(p, name);
    assert(pieces.push(name).drop_last() =~= pieces);
    assert(components(p + seq!['/'] + name) =~= components(p).push(ComponentView::Normal(name)));
    let up = seq!['.', '.'];
    lemma_one_more_piece(p, up);
    assert(pieces.push(up).drop_last() =~= pieces);
    assert(up.len() == 2 && seq!['.'].len() == 1);
    assert(components(p + seq!['/'] + up) =~= components(p).push(ComponentView::ParentDir));
    let here = seq!['.'];
    lemma_one_more_piece(p, here);
    assert(pieces.push(here).drop_last() =~= pieces);
    assert(components(p + seq!['/'] + here) =~= components(p));
    let none = Seq::<char>::empty();
    lemma_one_more_piece(p, none);
    assert(pieces.push(none).drop_last() =~= pieces);
    assert(p + seq!['/'] + none =~= p + seq!['/']);
    assert(components(p + seq!['/']) =~= components(p));
}

/// A name that is alone is one component, and behind the root it is the second.
pub proof fn law_single_name(name: Seq<char>)
    requires
        plain_name(name),
    ensures
        components(name) == seq![ComponentView::Normal(name)],
        components(seq!['/'] + name) == seq![ComponentView::RootDir, ComponentView::Normal(name)],
        components(seq!['/']) == seq![ComponentView::RootDir],
        components(Seq::empty()) == Seq::<ComponentView>::empty(),
{
    let none = Seq::<char>::empty();
    lemma_split_append(none, name);
    assert(none + name =~= name);
    assert(seq![none].drop_last().push(name) =~= seq![name]);
    assert(seq![name].drop_last() =~= Seq::empty());
    assert(seq![name].last() == name);
    reveal_with_fuel(piece_components, 3);
    assert(text::split_on(name, '/') =~= seq![name]);
    assert(name[0] != '/');
    assert(components(name) =~= seq![ComponentView::Normal(name)]);
    let root = seq!['/'];
    assert(root.drop_last() =~= none);
    assert(root.last() == '/');
    reveal_with_fuel(text::split_on, 2);
    assert(text::split_on(root, '/') =~= seq![none, none]);
    lemma_split_append(root, name);
    assert(seq![none, none].drop_last().push(none + name) =~= seq![none, name]);
    assert(seq![none, name].drop_last() =~= seq![none]);
    assert(seq![none, none].drop_last() =~= seq![none]);
    assert(seq![none].drop_last() =~= Seq::empty());
    assert((root + name)[0] == '/');
    assert(components(root + name) =~= seq![ComponentView::RootDir, ComponentView::Normal(name)]);
    assert(components(root) =~= seq![ComponentView::RootDir]);
    assert(seq![none].last() == none);
    assert(components(none) =~= Seq::<ComponentView>::empty());
}

/// Going into a directory and out again is staying, however the path goes, and
/// `.` is staying too.
pub proof fn law_up_undoes_down(p: Seq<char>, name: Seq<char>)
    requires
        p.len() > 0,
        plain_name(name),
    ensures
        lexically_resolved(p + seq!['/'] + name + seq!['/'] + seq!['.', '.']) == lexically_resolved(
            p,
        ),
        lexically_resolved(p + seq!['/'] + seq!['.']) == lexically_resolved(p),
        components(lexically_resolved(p + seq!['/'] + name)) == components(
            lexically_resolved(p),
        ).push(ComponentView::Normal(name)),
{
    let down = p + seq!['/'] + name;
    law_components_add_up(p, name);
    law_components_add_up(down, name);
    let comps = components(p);
    let one = comps.push(ComponentView::Normal(name));
    let two = one.push(ComponentView::ParentDir);
    assert(one.drop_last() =~= comps);
    assert(two.drop_last() =~= one);
    let out = collapsed(comps);
    assert(collapsed(one) == out.push(ComponentView::Normal(name)));
    assert(out.push(ComponentView::Normal(name)).drop_last() =~= out);
    assert(collapsed(two) == out);
    law_lexical_resolution(p);
    law_lexical_resolution(down);
}

/// A path lies in itself and in the directory that it is in, and not in one whose
/// name only begins like its own.
pub proof fn law_inside_is_by_components(p: Seq<char>, name: Seq<char>, tail: Seq<char>)
    requires
        p.len() > 0,
        plain_name(name),
        tail.len() > 0,
        forall|i: int| 0 <= i < tail.len() ==> #[trigger] tail[i] != '/',
    ensures
        path_starts_with(p, p),
        path_starts_with(p + seq!['/'] + name, p),
        plain_name(name + tail) ==> !path_starts_with(
            p + seq!['/'] + name + tail,
            p + seq!['/'] + name,
        ),
{
    law_components_add_up(p, name);
    let comps = components(p);
    assert(comps.subrange(0, comps.len() as int) =~= comps);
    assert(comps.push(ComponentView::Normal(name)).subrange(0, comps.len() as int) =~= comps);
    if plain_name(name + tail) {
        law_components_add_up(p, name + tail);
        assert(p + seq!['/'] + (name + tail) =~= p + seq!['/'] + name + tail);
        let longer = components(p + seq!['/'] + name + tail);
        let base = components(p + seq!['/'] + name);
        if path_starts_with(p + seq!['/'] + name + tail, p + seq!['/'] + name) {
            let n = comps.len() as int;
            assert(longer.subrange(0, base.len() as int)[n] == base[n]);
            assert(longer[n] == ComponentView::Normal(name + tail));
            assert(base[n] == ComponentView::Normal(name));
            assert((name + tail).len() != name.len());
        }
    }
}

/// What lies in a directory lies in each directory that this one lies in.
pub proof fn law_inside_is_passed_on(a: Seq<char>, b: Seq<char>, c: Seq<char>)
    requires
        path_starts_with(a, b),
        path_starts_with(b, c),
    ensures
        path_starts_with(a, c),
{
    let n = components(c).len() as int;
    assert(components(a).subrange(0, n) =~= components(a).subrange(
        0,
        components(b).len() as int,
    ).subrange(0, n));
}

/// A part is put behind a path with one slash between them, and an absolute part
/// takes its place.
pub proof fn law_joined_behind_a_slash(base: Seq<char>, part: Seq<char>)
    ensures
        is_absolute(part) ==> joined_path(base, part) == part,
        !is_absolute(part) && base.len() > 0 && base.last() != '/' ==> joined_path(base, part)
            == base + seq!['/'] + part,
        !is_absolute(part) && base.len() > 0 && base.last() == '/' ==> joined_path(base, part)
            == base + part,
        !is_absolute(part) && base.len() == 0 ==> joined_path(base, part) == part,
{
    assert(base.push('/') + part =~= base + seq!['/'] + part);
    if base.len() == 0 {
        assert(base + part =~= part);
    }
}

/// The extension of a file is what stands behind the last dot of its name; a name
/// without a dot has none, and neither has one that only begins with a dot.
pub proof fn law_extension_is_behind_the_last_dot(
    p: Seq<char>,
    stem: Seq<char>,
    ext: Seq<char>,
)
    requires
        p.len() > 0,
        stem.len() > 0,
        forall|i: int| 0 <= i < stem.len() ==> #[trigger] stem[i] != '/',
        forall|i: int| 0 <= i < ext.len() ==> #[trigger] ext[i] != '/' && ext[i] != '.',
        ext.len() > 0,
    ensures
        extension_of(p + seq!['/'] + (stem + seq!['.'] + ext)) == Some(ext),
        extension_of(p + seq!['/'] + ext) is None,
        extension_of(p + seq!['/'] + (seq!['.'] + ext)) is None,
{
    let name = stem + seq!['.'] + ext;
    assert(plain_name(name)) by {
        assert(name.len() > 2);
        assert(seq!['.'].len() == 1 && seq!['.', '.'].len() == 2);
        assert forall|i: int| 0 <= i < name.len() implies #[trigger] name[i] != '/' by {
            if i < stem.len() {
                assert(name[i] == stem[i]);
            } else if i > stem.len() {
                assert(name[i] == ext[i - stem.len() - 1]);
            }
        }
    }
    law_components_add_up(p, name);
    lemma_dots(stem, ext);
    assert(ext[0] != '.');
    assert(seq!['.'][0] == '.' && seq!['.', '.'][0] == '.');
    law_components_add_up(p, ext);
    lemma_no_dot(ext);
    let hidden = seq!['.'] + ext;
    assert(plain_name(hidden)) by {
        assert(hidden[1] == ext[0]);
        assert(seq!['.', '.'][1] == '.');
        assert(hidden.len() > 1 && seq!['.'].len() == 1);
        assert forall|i: int| 0 <= i < hidden.len() implies #[trigger] hidden[i] != '/' by {
            if i > 0 {
                assert(hidden[i] == ext[i - 1]);
            }
        }
    }
    law_components_add_up(p, hidden);
    lemma_dots(Seq::empty(), ext);
    assert(Seq::<char>::empty() + seq!['.'] + ext =~= hidden);
    reveal_with_fuel(text::split_on, 2);
}

/// A text without a dot is one piece.
proof fn lemma_no_dot(s: Seq<char>)
    requires
        forall|i: int| 0 <= i < s.len() ==> #[trigger] s[i] != '.',
    ensures
        text::split_on(s, '.') == seq![s],
    decreases s.len(),
{
    if s.len() > 0 {
        let before = s.drop_last();
        assert forall|i: int| 0 <= i < before.len() implies #[trigger] before[i] != '.' by {
            assert(before[i] == s[i]);
        }
        lemma_no_dot(before);
        assert(s.last() == s[s.len() - 1]);
        assert(seq![before].drop_last().push(before.push(s.last())) =~= seq![before.push(s.last())]);
        assert(before.push(s.last()) =~= s);
    } else {
        assert(s =~= Seq::empty());
    }
}

/// A dot and what follows it without another are one piece more.
proof fn lemma_dots(stem: Seq<char>, ext: Seq<char>)
    requires
        forall|i: int| 0 <= i < ext.len() ==> #[trigger] ext[i] != '.',
    ensures
        text::split_on(stem + seq!['.'] + ext, '.') == text::split_on(stem, '.').push(ext),
        text::split_on(stem, '.').len() > 0,
        stem.len() > 0 && text::split_on(stem, '.').len() == 1 ==> text::split_on(stem, '.')[0]
            == stem,
    decreases ext.len(),
{
    text::law_split_and_join(stem, '.');
    let pieces = text::split_on(stem, '.');
    if ext.len() == 0 {
        assert(stem + seq!['.'] + ext =~= stem + seq!['.']);
        assert((stem + seq!['.']).drop_last() =~= stem);
        assert(ext =~= Seq::empty());
    } else {
        let before = ext.drop_last();
        assert forall|i: int| 0 <= i < before.len() implies #[trigger] before[i] != '.' by {
            assert(before[i] == ext[i]);
        }
        lemma_dots(stem, before);
        let whole = stem + seq!['.'] + ext;
        assert(whole.drop_last() =~= stem + seq!['.'] + before);
        assert(whole.last() == ext[ext.len() - 1]);
        assert(pieces.push(before).drop_last() =~= pieces);
        assert(before.push(ext.last()) =~= ext);
    }
}

/// A dot in front of a path is a component of its own, and resolving takes it away.
pub proof fn law_leading_dot_is_resolved_away(name: Seq<char>)
    requires
        plain_name(name),
    ensures
        components(seq!['.']) == seq![ComponentView::CurDir],
        components(seq!['.'] + seq!['/'] + name) == seq![
            ComponentView::CurDir,
            ComponentView::Normal(name),
        ],
        lexically_resolved(seq!['.'] + seq!['/'] + name) == lexically_resolved(name),
{
    let here = seq!['.'];
    let none = Seq::<char>::empty();
    assert(here.drop_last() =~= none);
    reveal_with_fuel(text::split_on, 2);
    assert(none.push('.') =~= here);
    assert(text::split_on(here, '/') =~= seq![here]);
    reveal_with_fuel(piece_components, 2);
    assert(seq![here].drop_last() =~= Seq::empty());
    assert(components(here) =~= seq![ComponentView::CurDir]);
    law_components_add_up(here, name);
    law_single_name(name);
    assert(seq![ComponentView::CurDir].push(ComponentView::Normal(name)) =~= seq![
        ComponentView::CurDir,
        ComponentView::Normal(name),
    ]);
    let one = seq![ComponentView::Normal(name)];
    let two = seq![ComponentView::CurDir, ComponentView::Normal(name)];
    assert(one.drop_last() =~= Seq::empty());
    assert(two.drop_last() =~= seq![ComponentView::CurDir]);
    assert(seq![ComponentView::CurDir].drop_last() =~= Seq::empty());
    reveal_with_fuel(collapsed, 3);
    assert(collapsed(two) =~= collapsed(one));
}

} // verus!
