use vstd::prelude::*;
use crate::text::lower;

verus! {

/// Which separator convention a path text follows.
#[derive(Debug, Clone, Copy, PartialEq, Eq, Structural)]
pub enum PathStyle {
    /// `/`-separated paths of macOS and Linux.
    Posix,
    /// Drive-letter paths whose separators are `\` or `/`.
    Windows,
}

/// The path convention that a platform name implies.
pub open spec fn style_for(platform: Seq<char>) -> PathStyle {
    if platform == "windows"@ { PathStyle::Windows } else { PathStyle::Posix }
}

/// One component of a path, as a lexical reading yields it.
pub ghost enum Comp {
    Prefix(Seq<char>),
    Root,
    Cur,
    Parent,
    Normal(Seq<char>),
}

pub open spec fn is_sep(c: char, style: PathStyle) -> bool {
    c == '/' || (style == PathStyle::Windows && c == '\\')
}

/// The texts between separators, from left to right (empty texts included).
pub open spec fn raw_segments(s: Seq<char>, style: PathStyle) -> Seq<Seq<char>>
    decreases s.len(),
{
    if s.len() == 0 {
        seq![Seq::<char>::empty()]
    } else {
        let prev = raw_segments(s.drop_last(), style);
        if is_sep(s.last(), style) {
            prev.push(Seq::<char>::empty())
        } else {
            prev.update(prev.len() - 1, prev.last().push(s.last()))
        }
    }
}

pub proof fn lemma_raw_segments_nonempty(s: Seq<char>, style: PathStyle)
    ensures
        raw_segments(s, style).len() >= 1,
    decreases s.len(),
{
    if s.len() > 0 {
        lemma_raw_segments_nonempty(s.drop_last(), style);
    }
}

pub open spec fn dot() -> Seq<char> {
    seq!['.']
}

pub open spec fn dot_dot() -> Seq<char> {
    seq!['.', '.']
}

/// The components that a list of segments contributes after the path's head:
/// empty and `.` segments vanish, `..` is a parent step, the rest are names.
pub open spec fn segment_components(segs: Seq<Seq<char>>) -> Seq<Comp>
    decreases segs.len(),
{
    if segs.len() == 0 {
        Seq::empty()
    } else {
        let prev = segment_components(segs.drop_last());
        let seg = segs.last();
        if seg.len() == 0 || seg == dot() {
            prev
        } else if seg == dot_dot() {
            prev.push(Comp::Parent)
        } else {
            prev.push(Comp::Normal(seg))
        }
    }
}

pub open spec fn is_ascii_letter(c: char) -> bool {
    ('a' <= c && c <= 'z') || ('A' <= c && c <= 'Z')
}

/// A Windows path that starts with a drive such as `C:`.
pub open spec fn has_drive(s: Seq<char>, style: PathStyle) -> bool {
    style == PathStyle::Windows && s.len() >= 2 && is_ascii_letter(s[0]) && s[1] == ':'
}

/// The components of a path text, read lexically.
pub open spec fn components(s: Seq<char>, style: PathStyle) -> Seq<Comp> {
    let segs = raw_segments(s, style);
    if has_drive(s, style) {
        let first = segs[0];
        let drive = first.subrange(0, 2);
        let rest_of_first = first.subrange(2, first.len() as int);
        if s.len() >= 3 && is_sep(s[2], style) {
            seq![Comp::Prefix(drive), Comp::Root] + segment_components(segs.skip(1))
        } else {
            seq![Comp::Prefix(drive)] + segment_components(seq![rest_of_first] + segs.skip(1))
        }
    } else if s.len() > 0 && is_sep(s[0], style) {
        seq![Comp::Root] + segment_components(segs.skip(1))
    } else if segs[0] == dot() {
        seq![Comp::Cur] + segment_components(segs.skip(1))
    } else {
        segment_components(segs)
    }
}

/// An absolute path: rooted, and on Windows also on a drive.
pub open spec fn is_absolute(s: Seq<char>, style: PathStyle) -> bool {
    match style {
        PathStyle::Posix => s.len() > 0 && s[0] == '/',
        PathStyle::Windows => has_drive(s, style) && s.len() >= 3 && is_sep(s[2], style),
    }
}

/// The names left after lexical normalization of a list of segments: `.` and
/// empty segments vanish and `..` removes the preceding name; `None` when a
/// `..` would climb above the root.
pub open spec fn fold_names(segs: Seq<Seq<char>>) -> Option<Seq<Seq<char>>>
    decreases segs.len(),
{
    if segs.len() == 0 {
        Some(Seq::empty())
    } else {
        match fold_names(segs.drop_last()) {
            None => None,
            Some(acc) => {
                let seg = segs.last();
                if seg.len() == 0 || seg == dot() {
                    Some(acc)
                } else if seg == dot_dot() {
                    if acc.len() == 0 {
                        None
                    } else {
                        Some(acc.drop_last())
                    }
                } else {
                    Some(acc.push(seg))
                }
            },
        }
    }
}

/// Lexical normalization of an absolute path: its list of names, led on Windows
/// by the drive. `None` for a relative path or one that climbs above its root.
pub open spec fn normalize(s: Seq<char>, style: PathStyle) -> Option<Seq<Seq<char>>> {
    if !is_absolute(s, style) {
        None
    } else {
        let segs = raw_segments(s, style);
        match style {
            PathStyle::Posix => fold_names(segs),
            PathStyle::Windows => match fold_names(segs.skip(1)) {
                None => None,
                Some(names) => Some(seq![segs[0]] + names),
            },
        }
    }
}

/// The number of names that make up the root of a normalized path.
pub open spec fn root_len(style: PathStyle) -> int {
    match style {
        PathStyle::Posix => 0,
        PathStyle::Windows => 1,
    }
}

/// `prefix` is an initial run of `names`.
pub open spec fn names_prefix(names: Seq<Seq<char>>, prefix: Seq<Seq<char>>) -> bool {
    prefix.len() <= names.len() && forall|i: int| 0 <= i < prefix.len() ==> names[i] == prefix[i]
}

/// `prefix` is an initial run of `names`, ignoring ASCII case.
pub open spec fn names_prefix_ci(names: Seq<Seq<char>>, prefix: Seq<Seq<char>>) -> bool {
    prefix.len() <= names.len() && forall|i: int|
        0 <= i < prefix.len() ==> lower(#[trigger] names[i]) == lower(prefix[i])
}

/// Joins a relative part onto a base path as `Path::join` does; an absolute
/// part replaces the base.
pub open spec fn join(base: Seq<char>, part: Seq<char>, style: PathStyle) -> Seq<char> {
    if is_absolute(part, style) {
        part
    } else if base.len() == 0 || is_sep(base.last(), style) {
        base + part
    } else {
        base.push(sep_char(style)) + part
    }
}

pub open spec fn sep_char(style: PathStyle) -> char {
    match style {
        PathStyle::Posix => '/',
        PathStyle::Windows => '\\',
    }
}

/// The last component when it is a name.
pub open spec fn file_name(s: Seq<char>, style: PathStyle) -> Option<Seq<char>> {
    let c = components(s, style);
    if c.len() > 0 && c.last() is Normal {
        Some(c.last()->Normal_0)
    } else {
        None
    }
}


/// The character views of a list of character vectors.
pub open spec fn views(v: Seq<Vec<char>>) -> Seq<Seq<char>> {
    v.map_values(|x: Vec<char>| x@)
}

pub fn is_sep_exec(c: char, style: PathStyle) -> (r: bool)
    ensures
        r == is_sep(c, style),
{
    c == '/' || (style == PathStyle::Windows && c == '\\')
}

/// Splits a path text at its separators.
pub fn split_segments(s: &[char], style: PathStyle) -> (out: Vec<Vec<char>>)
    ensures
        views(out@) == raw_segments(s@, style),
{
    let mut out: Vec<Vec<char>> = Vec::new();
    let mut cur: Vec<char> = Vec::new();
    let mut i: usize = 0;
    while i < s.len()
        invariant
            i <= s@.len(),
            views(out@).push(cur@) == raw_segments(s@.subrange(0, i as int), style),
        decreases s.len() - i,
    {
        let ghost before = s@.subrange(0, i as int);
        let ghost after = s@.subrange(0, i + 1);
        assert(after.drop_last() =~= before);
        proof {
            lemma_raw_segments_nonempty(before, style);
        }
        let c = s[i];
        let ghost out_before = out@;
        let ghost cur_before = cur@;
        if is_sep_exec(c, style) {
            out.push(cur);
            cur = Vec::new();
            assert(views(out@) =~= views(out_before).push(cur_before));
            assert(views(out@).push(cur@) =~= raw_segments(after, style));
        } else {
            cur.push(c);
            assert(views(out@).push(cur@) =~= raw_segments(after, style));
        }
        i = i + 1;
    }
    let ghost out_before = out@;
    let ghost cur_before = cur@;
    out.push(cur);
    assert(views(out@) =~= views(out_before).push(cur_before));
    assert(s@.subrange(0, s@.len() as int) =~= s@);
    out
}


pub open spec fn opt_views(o: Option<Vec<Vec<char>>>) -> Option<Seq<Seq<char>>> {
    match o {
        None => None,
        Some(v) => Some(views(v@)),
    }
}

pub fn is_dot_exec(seg: &[char]) -> (r: bool)
    ensures
        r == (seg@ == dot()),
{
    if seg.len() == 1 && seg[0] == '.' {
        assert(seg@ =~= dot());
        true
    } else {
        false
    }
}

pub fn is_dot_dot_exec(seg: &[char]) -> (r: bool)
    ensures
        r == (seg@ == dot_dot()),
{
    if seg.len() == 2 && seg[0] == '.' && seg[1] == '.' {
        assert(seg@ =~= dot_dot());
        true
    } else {
        false
    }
}

/// Lexical normalization of the segments from `start` on.
pub fn fold_segments(segs: &[Vec<char>], start: usize) -> (r: Option<Vec<Vec<char>>>)
    requires
        start <= segs@.len(),
    ensures
        opt_views(r) == fold_names(views(segs@).skip(start as int)),
{
    let mut acc: Vec<Vec<char>> = Vec::new();
    let mut i: usize = start;
    while i < segs.len()
        invariant
            start <= i <= segs@.len(),
            fold_names(views(segs@).subrange(start as int, i as int)) == Some(views(acc@)),
        decreases segs.len() - i,
    {
        let ghost before = views(segs@).subrange(start as int, i as int);
        let ghost after = views(segs@).subrange(start as int, i + 1);
        assert(after.drop_last() =~= before);
        assert(after.last() == segs@[i as int]@);
        let seg = &segs[i];
        if seg.len() == 0 || is_dot_exec(seg.as_slice()) {
        } else if is_dot_dot_exec(seg.as_slice()) {
            if acc.len() == 0 {
                assert(fold_names(after) is None);
                assert(views(segs@).skip(start as int).subrange(0, (i - start) + 1) =~= after);
                proof { lemma_fold_none_extends(views(segs@).skip(start as int), (i - start) as int + 1); }
                return None;
            }
            let ghost acc_before = acc@;
            acc.pop();
            assert(views(acc@) =~= views(acc_before).drop_last());
        } else {
            let ghost acc_before = acc@;
            acc.push(seg.clone());
            assert(views(acc@) =~= views(acc_before).push(seg@));
        }
        i = i + 1;
    }
    assert(views(segs@).subrange(start as int, segs@.len() as int) =~= views(segs@).skip(start as int));
    Some(acc)
}

/// Once normalization of a prefix of the segments fails, it fails for the whole list.
pub proof fn lemma_fold_none_extends(segs: Seq<Seq<char>>, k: int)
    requires
        0 <= k <= segs.len(),
        fold_names(segs.subrange(0, k)) is None,
    ensures
        fold_names(segs) is None,
    decreases segs.len() - k,
{
    if k < segs.len() {
        let next = segs.subrange(0, k + 1);
        assert(next.drop_last() =~= segs.subrange(0, k));
        lemma_fold_none_extends(segs, k + 1);
    } else {
        assert(segs.subrange(0, k) =~= segs);
    }
}

/// Whether a path text is absolute.
pub fn is_absolute_exec(s: &[char], style: PathStyle) -> (r: bool)
    ensures
        r == is_absolute(s@, style),
{
    match style {
        PathStyle::Posix => s.len() > 0 && s[0] == '/',
        PathStyle::Windows => has_drive_exec(s, style) && s.len() >= 3 && is_sep_exec(s[2], style),
    }
}

pub fn is_ascii_letter_exec(c: char) -> (r: bool)
    ensures
        r == is_ascii_letter(c),
{
    ('a' <= c && c <= 'z') || ('A' <= c && c <= 'Z')
}

pub fn has_drive_exec(s: &[char], style: PathStyle) -> (r: bool)
    ensures
        r == has_drive(s@, style),
{
    style == PathStyle::Windows && s.len() >= 2 && is_ascii_letter_exec(s[0]) && s[1] == ':'
}

/// Lexical normalization of a path text (see `normalize`).
pub fn normalize_exec(s: &[char], style: PathStyle) -> (r: Option<Vec<Vec<char>>>)
    ensures
        opt_views(r) == normalize(s@, style),
{
    if !is_absolute_exec(s, style) {
        return None;
    }
    let segs = split_segments(s, style);
    proof {
        lemma_raw_segments_nonempty(s@, style);
    }
    match style {
        PathStyle::Posix => {
            assert(views(segs@).skip(0) =~= views(segs@));
            fold_segments(&segs, 0)
        },
        PathStyle::Windows => {
            match fold_segments(&segs, 1) {
                None => None,
                Some(names) => {
                    let mut out: Vec<Vec<char>> = Vec::new();
                    out.push(segs[0].clone());
                    let mut j: usize = 0;
                    while j < names.len()
                        invariant
                            j <= names@.len(),
                            views(out@) == seq![segs@[0]@] + views(names@).subrange(0, j as int),
                        decreases names.len() - j,
                    {
                        let ghost o = out@;
                        out.push(names[j].clone());
                        assert(views(out@) =~= views(o).push(names@[j as int]@));
                        assert(views(names@).subrange(0, j + 1) =~= views(names@).subrange(0, j as int).push(names@[j as int]@));
                        j = j + 1;
                    }
                    assert(views(names@).subrange(0, names@.len() as int) =~= views(names@));
                    Some(out)
                },
            }
        },
    }
}


/// One component of a path, as a lexical reading yields it.
#[derive(Debug, Clone)]
pub enum Component {
    Prefix(Vec<char>),
    RootDir,
    CurDir,
    ParentDir,
    Normal(Vec<char>),
}

impl View for Component {
    type V = Comp;

    open spec fn view(&self) -> Comp {
        match self {
            Component::Prefix(p) => Comp::Prefix(p@),
            Component::RootDir => Comp::Root,
            Component::CurDir => Comp::Cur,
            Component::ParentDir => Comp::Parent,
            Component::Normal(n) => Comp::Normal(n@),
        }
    }
}

pub open spec fn comp_views(v: Seq<Component>) -> Seq<Comp> {
    v.map_values(|c: Component| c@)
}

/// Appends the components that `segs[start..]` contribute.
pub fn push_segment_components(out: &mut Vec<Component>, segs: &[Vec<char>], start: usize)
    requires
        start <= segs@.len(),
    ensures
        comp_views(final(out)@) == comp_views(old(out)@) + segment_components(views(segs@).skip(start as int)),
{
    let ghost base = comp_views(out@);
    let mut i: usize = start;
    while i < segs.len()
        invariant
            start <= i <= segs@.len(),
            comp_views(out@) == base + segment_components(views(segs@).subrange(start as int, i as int)),
        decreases segs.len() - i,
    {
        let ghost before = views(segs@).subrange(start as int, i as int);
        let ghost after = views(segs@).subrange(start as int, i + 1);
        assert(after.drop_last() =~= before);
        assert(after.last() == segs@[i as int]@);
        let ghost o = out@;
        let seg = &segs[i];
        if seg.len() == 0 || is_dot_exec(seg.as_slice()) {
        } else if is_dot_dot_exec(seg.as_slice()) {
            out.push(Component::ParentDir);
            assert(comp_views(out@) =~= comp_views(o).push(Comp::Parent));
        } else {
            out.push(Component::Normal(seg.clone()));
            assert(comp_views(out@) =~= comp_views(o).push(Comp::Normal(seg@)));
        }
        i = i + 1;
    }
    assert(views(segs@).subrange(start as int, segs@.len() as int) =~= views(segs@).skip(start as int));
}

/// The components of a path text (see `components`).
pub fn components_exec(s: &[char], style: PathStyle) -> (r: Vec<Component>)
    ensures
        comp_views(r@) == components(s@, style),
{
    let segs = split_segments(s, style);
    proof {
        lemma_raw_segments_nonempty(s@, style);
    }
    let mut out: Vec<Component> = Vec::new();
    if has_drive_exec(s, style) {
        let first = &segs[0];
        proof { lemma_first_segment_starts(s@, style); }
        let drive = slice_range(first.as_slice(), 0, 2);
        if s.len() >= 3 && is_sep_exec(s[2], style) {
            out.push(Component::Prefix(drive));
            out.push(Component::RootDir);
            assert(comp_views(out@) =~= seq![Comp::Prefix(segs@[0]@.subrange(0, 2)), Comp::Root]);
            push_segment_components(&mut out, &segs, 1);
        } else {
            out.push(Component::Prefix(drive));
            let rest = slice_range(first.as_slice(), 2, first.len());
            let mut adjusted: Vec<Vec<char>> = Vec::new();
            adjusted.push(rest);
            let mut j: usize = 1;
            while j < segs.len()
                invariant
                    1 <= j <= segs@.len(),
                    views(adjusted@) == seq![segs@[0]@.subrange(2, segs@[0]@.len() as int)] + views(segs@).subrange(1, j as int),
                decreases segs.len() - j,
            {
                let ghost a = adjusted@;
                adjusted.push(segs[j].clone());
                assert(views(adjusted@) =~= views(a).push(segs@[j as int]@));
                assert(views(segs@).subrange(1, j + 1) =~= views(segs@).subrange(1, j as int).push(segs@[j as int]@));
                j = j + 1;
            }
            assert(views(segs@).subrange(1, segs@.len() as int) =~= views(segs@).skip(1));
            assert(views(adjusted@).skip(0) =~= views(adjusted@));
            assert(comp_views(out@) =~= seq![Comp::Prefix(segs@[0]@.subrange(0, 2))]);
            push_segment_components(&mut out, &adjusted, 0);
        }
    } else if s.len() > 0 && is_sep_exec(s[0], style) {
        out.push(Component::RootDir);
        assert(comp_views(out@) =~= seq![Comp::Root]);
        push_segment_components(&mut out, &segs, 1);
    } else if is_dot_exec(segs[0].as_slice()) {
        out.push(Component::CurDir);
        assert(comp_views(out@) =~= seq![Comp::Cur]);
        push_segment_components(&mut out, &segs, 1);
    } else {
        assert(comp_views(out@) =~= Seq::<Comp>::empty());
        assert(views(segs@).skip(0) =~= views(segs@));
        push_segment_components(&mut out, &segs, 0);
        assert(comp_views(out@) =~= segment_components(raw_segments(s@, style)));
    }
    out
}

/// The first segment of a text without a separator among its first `k` characters holds them.
pub proof fn lemma_first_segment_starts(s: Seq<char>, style: PathStyle)
    requires
        has_drive(s, style),
    ensures
        raw_segments(s, style)[0].len() >= 2,
        raw_segments(s, style)[0].subrange(0, 2) == s.subrange(0, 2),
{
    lemma_prefix_in_first_segment(s, style, 2);
}

pub proof fn lemma_prefix_in_first_segment(s: Seq<char>, style: PathStyle, k: int)
    requires
        0 <= k <= s.len(),
        forall|j: int| 0 <= j < k ==> !is_sep(s[j], style),
    ensures
        raw_segments(s, style).len() >= 1,
        raw_segments(s, style)[0].len() >= k,
        raw_segments(s, style)[0].subrange(0, k) == s.subrange(0, k),
    decreases s.len(),
{
    lemma_raw_segments_nonempty(s, style);
    if s.len() > 0 {
        let t = s.drop_last();
        lemma_raw_segments_nonempty(t, style);
        if k == s.len() {
            lemma_no_sep_single_segment(s, style);
            assert(s.subrange(0, k) =~= s);
        } else {
            lemma_prefix_in_first_segment(t, style, k);
            lemma_raw_segments_nonempty(t, style);
            if is_sep(s.last(), style) {
            } else {
                let prev = raw_segments(t, style);
                if prev.len() == 1 {
                    assert(raw_segments(s, style)[0] == prev[0].push(s.last()));
                    assert(raw_segments(s, style)[0].subrange(0, k) =~= prev[0].subrange(0, k));
                }
            }
            assert(t.subrange(0, k) =~= s.subrange(0, k));
        }
    }
}

pub proof fn lemma_no_sep_single_segment(s: Seq<char>, style: PathStyle)
    requires
        forall|j: int| 0 <= j < s.len() ==> !is_sep(s[j], style),
    ensures
        raw_segments(s, style).len() == 1,
        raw_segments(s, style)[0] == s,
    decreases s.len(),
{
    if s.len() > 0 {
        lemma_no_sep_single_segment(s.drop_last(), style);
        assert(s.drop_last().push(s.last()) =~= s);
    } else {
        assert(raw_segments(s, style)[0] =~= s);
    }
}

/// A copy of `v[from..to]`.
pub fn slice_range(v: &[char], from: usize, to: usize) -> (r: Vec<char>)
    requires
        from <= to <= v@.len(),
    ensures
        r@ == v@.subrange(from as int, to as int),
{
    let mut r: Vec<char> = Vec::new();
    let mut i: usize = from;
    while i < to
        invariant
            from <= i <= to,
            to <= v@.len(),
            r@ == v@.subrange(from as int, i as int),
        decreases to - i,
    {
        r.push(v[i]);
        assert(v@.subrange(from as int, i + 1) =~= v@.subrange(from as int, i as int).push(v@[i as int]));
        i = i + 1;
    }
    r
}


/// `prefix` is an initial run of the components `c`.
pub open spec fn comps_prefix(c: Seq<Comp>, prefix: Seq<Comp>) -> bool {
    prefix.len() <= c.len() && c.subrange(0, prefix.len() as int) == prefix
}

/// `Path::starts_with`: the base's components begin the path's components.
pub open spec fn path_starts_with(p: Seq<char>, base: Seq<char>, style: PathStyle) -> bool {
    comps_prefix(components(p, style), components(base, style))
}

/// The text of one component.
pub open spec fn comp_text(c: Comp) -> Seq<char> {
    match c {
        Comp::Prefix(p) => p,
        Comp::Root => seq!['/'],
        Comp::Cur => dot(),
        Comp::Parent => dot_dot(),
        Comp::Normal(n) => n,
    }
}

/// Relative components joined by `/`.
pub open spec fn join_rel(c: Seq<Comp>) -> Seq<char>
    decreases c.len(),
{
    if c.len() == 0 {
        Seq::empty()
    } else if c.len() == 1 {
        comp_text(c[0])
    } else {
        join_rel(c.drop_last()).push('/') + comp_text(c.last())
    }
}

/// A path shown relative to the home folder as `~/...`, or unchanged when it is not inside it.
pub open spec fn display_path(p: Seq<char>, home: Seq<char>) -> Seq<char> {
    let pc = components(p, PathStyle::Posix);
    let hc = components(home, PathStyle::Posix);
    if comps_prefix(pc, hc) {
        seq!['~', '/'] + join_rel(pc.skip(hc.len() as int))
    } else {
        p
    }
}

pub fn same_component(a: &Component, b: &Component) -> (r: bool)
    ensures
        r == (a@ == b@),
{
    match (a, b) {
        (Component::Prefix(x), Component::Prefix(y)) => crate::text::slices_equal(x.as_slice(), y.as_slice()),
        (Component::RootDir, Component::RootDir) => true,
        (Component::CurDir, Component::CurDir) => true,
        (Component::ParentDir, Component::ParentDir) => true,
        (Component::Normal(x), Component::Normal(y)) => crate::text::slices_equal(x.as_slice(), y.as_slice()),
        _ => false,
    }
}

/// Whether `prefix` begins the component list `c`.
pub fn comps_prefix_exec(c: &[Component], prefix: &[Component]) -> (r: bool)
    ensures
        r == comps_prefix(comp_views(c@), comp_views(prefix@)),
{
    if prefix.len() > c.len() {
        return false;
    }
    let mut i: usize = 0;
    while i < prefix.len()
        invariant
            prefix@.len() <= c@.len(),
            i <= prefix@.len(),
            forall|j: int| 0 <= j < i ==> c@[j]@ == prefix@[j]@,
        decreases prefix.len() - i,
    {
        if !same_component(&c[i], &prefix[i]) {
            assert(comp_views(c@).subrange(0, prefix@.len() as int)[i as int] != comp_views(prefix@)[i as int]);
            return false;
        }
        i = i + 1;
    }
    assert(comp_views(c@).subrange(0, prefix@.len() as int) =~= comp_views(prefix@));
    true
}

/// `Path::starts_with` on path texts.
pub fn path_starts_with_exec(p: &str, base: &str, style: PathStyle) -> (r: bool)
    ensures
        r == path_starts_with(p@, base@, style),
{
    let pc = components_exec(crate::text::chars_of(p).as_slice(), style);
    let bc = components_exec(crate::text::chars_of(base).as_slice(), style);
    comps_prefix_exec(pc.as_slice(), bc.as_slice())
}

/// Appends the text of a component.
pub fn push_comp_text(out: &mut Vec<char>, c: &Component)
    ensures
        final(out)@ == old(out)@ + comp_text(c@),
{
    match c {
        Component::Prefix(p) => append_chars(out, p.as_slice()),
        Component::RootDir => {
            out.push('/');
        },
        Component::CurDir => {
            out.push('.');
            assert(old(out)@ + comp_text(c@) =~= old(out)@.push('.'));
        },
        Component::ParentDir => {
            out.push('.');
            out.push('.');
            assert(old(out)@ + comp_text(c@) =~= old(out)@.push('.').push('.'));
        },
        Component::Normal(n) => append_chars(out, n.as_slice()),
    }
    assert(final(out)@ =~= old(out)@ + comp_text(c@)) by {
        if c@ is Root {
            assert(old(out)@ + comp_text(c@) =~= old(out)@.push('/'));
        }
    }
}

pub fn append_chars(out: &mut Vec<char>, v: &[char])
    ensures
        final(out)@ == old(out)@ + v@,
{
    let ghost start = out@;
    let mut i: usize = 0;
    while i < v.len()
        invariant
            i <= v@.len(),
            out@ == start + v@.subrange(0, i as int),
        decreases v.len() - i,
    {
        out.push(v[i]);
        assert(start + v@.subrange(0, i + 1) =~= (start + v@.subrange(0, i as int)).push(v@[i as int]));
        i = i + 1;
    }
    assert(v@.subrange(0, v@.len() as int) =~= v@);
}

/// Relative components from `from` on, joined by `/`.
pub fn join_rel_exec(c: &[Component], from: usize) -> (r: Vec<char>)
    requires
        from <= c@.len(),
    ensures
        r@ == join_rel(comp_views(c@).skip(from as int)),
{
    let mut out: Vec<char> = Vec::new();
    let mut i: usize = from;
    while i < c.len()
        invariant
            from <= i <= c@.len(),
            out@ == join_rel(comp_views(c@).subrange(from as int, i as int)),
        decreases c.len() - i,
    {
        let ghost before = comp_views(c@).subrange(from as int, i as int);
        let ghost after = comp_views(c@).subrange(from as int, i + 1);
        assert(after.drop_last() =~= before);
        if i > from {
            out.push('/');
        } else {
            assert(after =~= seq![c@[i as int]@]);
        }
        push_comp_text(&mut out, &c[i]);
        i = i + 1;
    }
    assert(comp_views(c@).subrange(from as int, c@.len() as int) =~= comp_views(c@).skip(from as int));
    out
}

/// A path shown relative to the home folder (see `display_path`).
pub fn display_path_exec(p: &str, home: &str) -> (r: String)
    ensures
        r@ == display_path(p@, home@),
{
    let pc = components_exec(crate::text::chars_of(p).as_slice(), PathStyle::Posix);
    let hc = components_exec(crate::text::chars_of(home).as_slice(), PathStyle::Posix);
    if comps_prefix_exec(pc.as_slice(), hc.as_slice()) {
        let mut out: Vec<char> = Vec::new();
        out.push('~');
        out.push('/');
        let rest = join_rel_exec(pc.as_slice(), hc.len());
        append_chars(&mut out, rest.as_slice());
        assert(out@ =~= seq!['~', '/'] + rest@);
        crate::text::string_of(out.as_slice())
    } else {
        String::from_str(p)
    }
}

/// `base.join(part)` on path texts.
pub fn join_exec(base: &str, part: &str, style: PathStyle) -> (r: String)
    ensures
        r@ == join(base@, part@, style),
{
    let b = crate::text::chars_of(base);
    let p = crate::text::chars_of(part);
    if is_absolute_exec(p.as_slice(), style) {
        return String::from_str(part);
    }
    let mut out = b.clone();
    if !(b.len() == 0 || is_sep_exec(b[b.len() - 1], style)) {
        out.push(match style {
            PathStyle::Posix => '/',
            PathStyle::Windows => '\\',
        });
    }
    append_chars(&mut out, p.as_slice());
    crate::text::string_of(out.as_slice())
}

/// The last component when it is a name (see `file_name`).
pub fn file_name_exec(p: &str, style: PathStyle) -> (r: Option<Vec<char>>)
    ensures
        match r {
            None => file_name(p@, style) is None,
            Some(n) => file_name(p@, style) == Some(n@),
        },
{
    let c = components_exec(crate::text::chars_of(p).as_slice(), style);
    if c.len() == 0 {
        return None;
    }
    match &c[c.len() - 1] {
        Component::Normal(n) => Some(n.clone()),
        _ => None,
    }
}

/// A copy of a component.
pub fn copy_component(c: &Component) -> (r: Component)
    ensures
        r@ == c@,
{
    match c {
        Component::Prefix(p) => {
            let r = slice_range(p.as_slice(), 0, p.len());
            assert(r@ =~= p@);
            Component::Prefix(r)
        },
        Component::RootDir => Component::RootDir,
        Component::CurDir => Component::CurDir,
        Component::ParentDir => Component::ParentDir,
        Component::Normal(n) => {
            let r = slice_range(n.as_slice(), 0, n.len());
            assert(r@ =~= n@);
            Component::Normal(r)
        },
    }
}

/// A copy of `c[from..to]`.
pub fn copy_components(c: &[Component], from: usize, to: usize) -> (r: Vec<Component>)
    requires
        from <= to <= c@.len(),
    ensures
        comp_views(r@) == comp_views(c@).subrange(from as int, to as int),
{
    let mut r: Vec<Component> = Vec::new();
    let mut i: usize = from;
    while i < to
        invariant
            from <= i <= to,
            to <= c@.len(),
            comp_views(r@) == comp_views(c@).subrange(from as int, i as int),
        decreases to - i,
    {
        let x = copy_component(&c[i]);
        let ghost before = r@;
        r.push(x);
        assert(r@ == before.push(x));
        assert(comp_views(r@) =~= comp_views(before).push(x@));
        assert(comp_views(c@).subrange(from as int, i + 1) =~= comp_views(c@).subrange(from as int, i as int).push(c@[i as int]@));
        i = i + 1;
    }
    r
}

/// Path equality as `Path` defines it: the same components.
pub open spec fn same_path(a: Seq<char>, b: Seq<char>, style: PathStyle) -> bool {
    components(a, style) == components(b, style)
}

/// Element-wise equality of two component lists.
pub fn comps_equal_exec(a: &[Component], b: &[Component]) -> (r: bool)
    ensures
        r == (comp_views(a@) == comp_views(b@)),
{
    if a.len() != b.len() {
        return false;
    }
    let r = comps_prefix_exec(a, b);
    proof {
        if r {
            assert(comp_views(a@).subrange(0, b@.len() as int) =~= comp_views(a@));
        } else {
            assert(comp_views(a@).subrange(0, b@.len() as int) =~= comp_views(a@));
        }
    }
    r
}

/// `Path` equality on path texts.
pub fn same_path_exec(a: &str, b: &str, style: PathStyle) -> (r: bool)
    ensures
        r == same_path(a@, b@, style),
{
    let ac = components_exec(crate::text::chars_of(a).as_slice(), style);
    let bc = components_exec(crate::text::chars_of(b).as_slice(), style);
    comps_equal_exec(ac.as_slice(), bc.as_slice())
}


/// Splitting a text after a separator splits its segments there.
#[verifier::spinoff_prover]
#[verifier::rlimit(50)]
pub proof fn lemma_raw_segments_after_sep(a: Seq<char>, b: Seq<char>, style: PathStyle)
    requires
        a.len() > 0,
        is_sep(a.last(), style),
    ensures
        raw_segments(a + b, style) == raw_segments(a.drop_last(), style) + raw_segments(b, style),
    decreases b.len(),
{
    if b.len() == 0 {
        assert(a + b =~= a);
        assert(raw_segments(a, style) =~= raw_segments(a.drop_last(), style) + raw_segments(b, style));
    } else {
        let b0 = b.drop_last();
        lemma_raw_segments_after_sep(a, b0, style);
        lemma_raw_segments_nonempty(b0, style);
        assert((a + b).drop_last() =~= a + b0);
        assert((a + b).last() == b.last());
        let x = raw_segments(a.drop_last(), style);
        let y = raw_segments(b0, style);
        if is_sep(b.last(), style) {
            assert((x + y).push(Seq::<char>::empty()) =~= x + y.push(Seq::<char>::empty()));
        } else {
            assert((x + y).update((x + y).len() - 1, (x + y).last().push(b.last()))
                =~= x + y.update(y.len() - 1, y.last().push(b.last())));
        }
    }
}

/// No segment is a parent step.
pub open spec fn no_parent_step(segs: Seq<Seq<char>>) -> bool {
    forall|i: int| 0 <= i < segs.len() ==> #[trigger] segs[i] != dot_dot()
}

/// Segments without a parent step always normalize, and after other
/// segments they add their names to those the others left.
#[verifier::spinoff_prover]
#[verifier::rlimit(50)]
pub proof fn lemma_fold_names_append(x: Seq<Seq<char>>, y: Seq<Seq<char>>)
    requires
        no_parent_step(y),
    ensures
        fold_names(y) is Some,
        fold_names(x) matches Some(acc) ==> fold_names(x + y) == Some(acc + fold_names(y)->0),
    decreases y.len(),
{
    if y.len() == 0 {
        assert(x + y =~= x);
        if let Some(acc) = fold_names(x) {
            assert(acc + Seq::<Seq<char>>::empty() =~= acc);
        }
    } else {
        let y0 = y.drop_last();
        assert(no_parent_step(y0)) by {
            assert forall|i: int| 0 <= i < y0.len() implies #[trigger] y0[i] != dot_dot() by {
                assert(y0[i] == y[i]);
            }
        }
        lemma_fold_names_append(x, y0);
        assert(y[y.len() - 1] != dot_dot());
        assert((x + y).drop_last() =~= x + y0);
        assert((x + y).last() == y.last());
        if let Some(acc) = fold_names(x) {
            let f0 = fold_names(y0)->0;
            let seg = y.last();
            if !(seg.len() == 0 || seg == dot()) {
                assert((acc + f0).push(seg) =~= acc + f0.push(seg));
            }
        }
    }
}

/// A text without separators is one segment.
pub proof fn lemma_single_segment(s: Seq<char>, style: PathStyle)
    requires
        forall|j: int| 0 <= j < s.len() ==> !is_sep(#[trigger] s[j], style),
    ensures
        raw_segments(s, style) == seq![s],
{
    lemma_no_sep_single_segment(s, style);
    assert(raw_segments(s, style) =~= seq![s]);
}

/// A relative part joined onto an absolute POSIX base normalizes to the
/// base's names followed by the part's, when the part has no parent step.
#[verifier::spinoff_prover]
#[verifier::rlimit(50)]
pub proof fn lemma_normalize_join(base: Seq<char>, part: Seq<char>)
    requires
        normalize(base, PathStyle::Posix) is Some,
        part.len() > 0,
        part[0] != '/',
        no_parent_step(raw_segments(part, PathStyle::Posix)),
    ensures
        fold_names(raw_segments(part, PathStyle::Posix)) is Some,
        normalize(join(base, part, PathStyle::Posix), PathStyle::Posix)
            == Some(normalize(base, PathStyle::Posix)->0 + fold_names(raw_segments(part, PathStyle::Posix))->0),
{
    let style = PathStyle::Posix;
    let hn = normalize(base, style)->0;
    let rp = raw_segments(part, style);
    lemma_fold_names_append(raw_segments(base, style), rp);
    assert(!is_absolute(part, style));
    if is_sep(base.last(), style) {
        let j = base + part;
        assert(join(base, part, style) == j);
        lemma_raw_segments_after_sep(base, part, style);
        lemma_raw_segments_after_sep(base, Seq::<char>::empty(), style);
        assert(base + Seq::<char>::empty() =~= base);
        let h0 = raw_segments(base.drop_last(), style);
        assert(raw_segments(Seq::<char>::empty(), style) =~= seq![Seq::<char>::empty()]);
        assert(no_parent_step(seq![Seq::<char>::empty()]));
        lemma_fold_names_append(h0, seq![Seq::<char>::empty()]);
        lemma_fold_names_append(h0, rp);
        let e: Seq<Seq<char>> = seq![Seq::<char>::empty()];
        assert(fold_names(e.drop_last()) == Some(Seq::<Seq<char>>::empty()));
        assert(e.drop_last() =~= Seq::<Seq<char>>::empty());
        assert(fold_names(e) == Some(Seq::<Seq<char>>::empty()));
        assert(raw_segments(base, style) == h0 + e);
        assert((h0 + e).drop_last() =~= h0);
        assert((h0 + e).last() == Seq::<char>::empty());
        assert(fold_names(h0 + e) == fold_names(h0));
        assert(fold_names(h0) is Some);
        let f0 = fold_names(h0)->0;
        assert(f0 + Seq::<Seq<char>>::empty() =~= f0);
        assert(j[0] == base[0]);
        assert(is_absolute(j, style));
    } else {
        let j = base.push('/') + part;
        assert(join(base, part, style) == j);
        lemma_raw_segments_after_sep(base.push('/'), part, style);
        assert(base.push('/').drop_last() =~= base);
        assert(j[0] == base[0]);
        assert(is_absolute(j, style));
    }
}

/// No two dots stand next to each other.
pub open spec fn no_double_dot(x: Seq<char>) -> bool {
    forall|i: int| 0 <= i < x.len() - 1 ==> !(#[trigger] x[i] == '.' && x[i + 1] == '.')
}

/// The last segment of a text ends it.
#[verifier::spinoff_prover]
#[verifier::rlimit(50)]
pub proof fn lemma_last_segment_ends_text(x: Seq<char>, style: PathStyle)
    ensures
        raw_segments(x, style).len() >= 1,
        raw_segments(x, style).last().len() <= x.len(),
        x.subrange(x.len() - raw_segments(x, style).last().len(), x.len() as int) == raw_segments(x, style).last(),
    decreases x.len(),
{
    lemma_raw_segments_nonempty(x, style);
    if x.len() == 0 {
        assert(x.subrange(0, 0) =~= raw_segments(x, style).last());
    } else {
        let x0 = x.drop_last();
        lemma_last_segment_ends_text(x0, style);
        lemma_raw_segments_nonempty(x0, style);
        let l0 = raw_segments(x0, style).last();
        if is_sep(x.last(), style) {
            assert(x.subrange(x.len() as int, x.len() as int) =~= Seq::<char>::empty());
        } else {
            let l = raw_segments(x, style).last();
            assert(l == l0.push(x.last()));
            assert(x.subrange(x.len() - l.len(), x.len() as int) =~= x0.subrange(x0.len() - l0.len(), x0.len() as int).push(x.last()));
        }
    }
}

/// A text without two dots in a row has no parent step among its segments.
#[verifier::spinoff_prover]
#[verifier::rlimit(50)]
pub proof fn lemma_no_double_dot_no_parent(x: Seq<char>, style: PathStyle)
    requires
        no_double_dot(x),
    ensures
        no_parent_step(raw_segments(x, style)),
    decreases x.len(),
{
    if x.len() == 0 {
        assert(raw_segments(x, style) =~= seq![Seq::<char>::empty()]);
        assert(Seq::<char>::empty() != dot_dot()) by {
            assert(dot_dot().len() == 2);
        }
    } else {
        let x0 = x.drop_last();
        assert(no_double_dot(x0)) by {
            assert forall|i: int| 0 <= i < x0.len() - 1 implies !(#[trigger] x0[i] == '.' && x0[i + 1] == '.') by {
                assert(x0[i] == x[i] && x0[i + 1] == x[i + 1]);
            }
        }
        lemma_no_double_dot_no_parent(x0, style);
        lemma_last_segment_ends_text(x0, style);
        let r0 = raw_segments(x0, style);
        let r = raw_segments(x, style);
        if is_sep(x.last(), style) {
            assert forall|i: int| 0 <= i < r.len() implies #[trigger] r[i] != dot_dot() by {
                if i < r0.len() {
                    assert(r[i] == r0[i]);
                } else {
                    assert(r[i].len() == 0);
                }
            }
        } else {
            let l0 = r0.last();
            assert forall|i: int| 0 <= i < r.len() implies #[trigger] r[i] != dot_dot() by {
                if i < r0.len() - 1 {
                    assert(r[i] == r0[i]);
                } else {
                    assert(r[i] == l0.push(x.last()));
                    if l0.push(x.last()) == dot_dot() {
                        assert(l0.push(x.last())[0] == '.');
                        assert(l0.len() == 1 && l0[0] == '.' && x.last() == '.');
                        assert(x0.subrange(x0.len() - 1, x0.len() as int) == l0);
                        assert(x[x.len() - 2] == '.');
                    }
                }
            }
        }
    }
}

/// A root followed by one name normalizes to that name.
#[verifier::spinoff_prover]
#[verifier::rlimit(50)]
pub proof fn lemma_rooted_name(w: Seq<char>)
    requires
        w.len() > 0,
        forall|j: int| 0 <= j < w.len() ==> #[trigger] w[j] != '/',
        w != dot(),
        w != dot_dot(),
    ensures
        normalize(seq!['/'] + w, PathStyle::Posix) == Some(seq![w]),
{
    let s = seq!['/'] + w;
    lemma_raw_segments_after_sep(seq!['/'], w, PathStyle::Posix);
    lemma_single_segment(w, PathStyle::Posix);
    assert(seq!['/'].drop_last() =~= Seq::<char>::empty());
    let e: Seq<Seq<char>> = seq![Seq::<char>::empty()];
    assert(raw_segments(Seq::<char>::empty(), PathStyle::Posix) =~= e);
    let segs = e + seq![w];
    assert(raw_segments(s, PathStyle::Posix) == segs);
    assert(segs.drop_last() =~= e);
    assert(e.drop_last() =~= Seq::<Seq<char>>::empty());
    assert(fold_names(Seq::<Seq<char>>::empty()) == Some(Seq::<Seq<char>>::empty()));
    assert(e.last().len() == 0);
    assert(fold_names(e) == Some(Seq::<Seq<char>>::empty()));
    assert(segs.last() == w);
    assert(fold_names(segs) == Some(Seq::<Seq<char>>::empty().push(w)));
    assert(Seq::<Seq<char>>::empty().push(w) =~= seq![w]);
    assert(s[0] == '/');
}

/// A relative part joined onto an absolute Windows base normalizes to the
/// base's drive and names followed by the part's names, when the part has
/// no parent step.
#[verifier::spinoff_prover]
#[verifier::rlimit(50)]
pub proof fn lemma_normalize_join_windows(base: Seq<char>, part: Seq<char>)
    requires
        normalize(base, PathStyle::Windows) is Some,
        part.len() > 0,
        !is_absolute(part, PathStyle::Windows),
        no_parent_step(raw_segments(part, PathStyle::Windows)),
    ensures
        fold_names(raw_segments(part, PathStyle::Windows)) is Some,
        normalize(join(base, part, PathStyle::Windows), PathStyle::Windows)
            == Some(normalize(base, PathStyle::Windows)->0 + fold_names(raw_segments(part, PathStyle::Windows))->0),
{
    let style = PathStyle::Windows;
    let rp = raw_segments(part, style);
    let rb = raw_segments(base, style);
    lemma_raw_segments_nonempty(base, style);
    lemma_fold_names_append(Seq::<Seq<char>>::empty(), rp);
    assert(base.len() >= 3);
    if is_sep(base.last(), style) {
        let j = base + part;
        assert(join(base, part, style) == j);
        let r0 = raw_segments(base.drop_last(), style);
        lemma_raw_segments_nonempty(base.drop_last(), style);
        lemma_raw_segments_after_sep(base, part, style);
        lemma_raw_segments_after_sep(base, Seq::<char>::empty(), style);
        assert(base + Seq::<char>::empty() =~= base);
        let e: Seq<Seq<char>> = seq![Seq::<char>::empty()];
        assert(raw_segments(Seq::<char>::empty(), style) =~= e);
        assert(rb == r0 + e);
        assert(rb.skip(1) =~= r0.skip(1) + e);
        assert((r0.skip(1) + e).drop_last() =~= r0.skip(1));
        assert((r0.skip(1) + e).last().len() == 0);
        assert(fold_names(r0.skip(1) + e) == fold_names(r0.skip(1)));
        assert(fold_names(r0.skip(1)) is Some);
        lemma_fold_names_append(r0.skip(1), rp);
        assert((r0 + rp).skip(1) =~= r0.skip(1) + rp);
        assert((r0 + rp)[0] == r0[0]);
        assert(rb[0] == r0[0]);
        assert(j[0] == base[0] && j[1] == base[1] && j[2] == base[2]);
        assert(is_absolute(j, style));
        assert(seq![r0[0]] + (fold_names(r0.skip(1))->0 + fold_names(rp)->0)
            =~= (seq![r0[0]] + fold_names(r0.skip(1))->0) + fold_names(rp)->0);
    } else {
        let j = base.push('\\') + part;
        assert(join(base, part, style) == j);
        lemma_raw_segments_after_sep(base.push('\\'), part, style);
        assert(base.push('\\').drop_last() =~= base);
        assert(fold_names(rb.skip(1)) is Some);
        lemma_fold_names_append(rb.skip(1), rp);
        assert((rb + rp).skip(1) =~= rb.skip(1) + rp);
        assert((rb + rp)[0] == rb[0]);
        assert(j[0] == base[0] && j[1] == base[1] && j[2] == base[2]);
        assert(is_absolute(j, style));
        assert(seq![rb[0]] + (fold_names(rb.skip(1))->0 + fold_names(rp)->0)
            =~= (seq![rb[0]] + fold_names(rb.skip(1))->0) + fold_names(rp)->0);
    }
}

/// A folder named at the root of an absolute Windows path's drive normalizes
/// to the drive and the folder's name.
#[verifier::spinoff_prover]
#[verifier::rlimit(50)]
pub proof fn lemma_windows_drive_folder(home: Seq<char>, name: Seq<char>, root: Seq<char>)
    requires
        normalize(home, PathStyle::Windows) is Some,
        root == home.subrange(0, 3),
        name.len() > 0,
        forall|j: int| 0 <= j < name.len() ==> !is_sep(#[trigger] name[j], PathStyle::Windows),
        name != dot(),
        name != dot_dot(),
        !is_absolute(name, PathStyle::Windows),
    ensures
        normalize(join(root, name, PathStyle::Windows), PathStyle::Windows) == Some(seq![home.subrange(0, 2), name]),
{
    let style = PathStyle::Windows;
    assert(is_absolute(home, style));
    let j = root + name;
    assert(is_sep(root.last(), style));
    assert(join(root, name, style) == j);
    lemma_raw_segments_after_sep(root, name, style);
    assert(root.drop_last() =~= home.subrange(0, 2));
    lemma_single_segment(home.subrange(0, 2), style);
    lemma_single_segment(name, style);
    let segs = seq![home.subrange(0, 2)] + seq![name];
    assert(raw_segments(j, style) == segs);
    assert(j[0] == home[0] && j[1] == home[1] && j[2] == home[2]);
    assert(is_absolute(j, style));
    assert(segs.skip(1) =~= seq![name]);
    assert(seq![name].drop_last() =~= Seq::<Seq<char>>::empty());
    assert(fold_names(Seq::<Seq<char>>::empty()) == Some(Seq::<Seq<char>>::empty()));
    assert(fold_names(seq![name]) == Some(Seq::<Seq<char>>::empty().push(name)));
    assert(seq![segs[0]] + Seq::<Seq<char>>::empty().push(name) =~= seq![home.subrange(0, 2), name]);
}

} // verus!
