//! File-system paths as the access policy reads them: an absolute flag and the
//! list of components, as `std::path::Path::components` yields them on Unix.
use vstd::prelude::*;
use crate::text::{push_char, push_chars, chars_of, string_of, chars_eq};

verus! {

/// A path: whether it starts at the root, and its components (`.` survives
/// only as the first component of a relative path, `..` is kept as is).
pub struct FsPath {
    pub absolute: bool,
    pub components: Vec<String>,
}

/// The model of a path.
pub struct PathModel {
    pub absolute: bool,
    pub components: Seq<Seq<char>>,
}

impl View for FsPath {
    type V = PathModel;

    open spec fn view(&self) -> PathModel {
        PathModel {
            absolute: self.absolute,
            components: Seq::new(self.components@.len(), |i: int| self.components@[i]@),
        }
    }
}

/// The segments of `s` between `/` separators.
pub open spec fn segments(s: Seq<char>) -> Seq<Seq<char>>
    decreases s.len(),
{
    if s.len() == 0 {
        seq![Seq::<char>::empty()]
    } else {
        let rest = segments(s.drop_last());
        if s.last() == '/' {
            rest.push(Seq::empty())
        } else {
            rest.update(rest.len() - 1, rest.last().push(s.last()))
        }
    }
}

/// The single-character text ".".
pub open spec fn dot() -> Seq<char> {
    seq!['.']
}

/// Whether segment number `i` of `raw` is kept as a component: empty segments
/// and `.` are dropped, except a `.` that begins a relative path.
pub open spec fn keeps_segment(raw: Seq<char>, i: int) -> bool {
    let seg = segments(raw)[i];
    &&& seg.len() > 0
    &&& (seg == dot() ==> i == 0 && !(raw.len() > 0 && raw[0] == '/'))
}

/// The components of segments `[0, n)` of `raw`.
pub open spec fn components_upto(raw: Seq<char>, n: nat) -> Seq<Seq<char>>
    decreases n,
{
    if n == 0 {
        Seq::empty()
    } else {
        let before = components_upto(raw, (n - 1) as nat);
        if keeps_segment(raw, n - 1) {
            before.push(segments(raw)[n - 1])
        } else {
            before
        }
    }
}

/// The path that `PathBuf::from(raw)` denotes on Unix.
pub open spec fn parse_path(raw: Seq<char>) -> PathModel {
    PathModel {
        absolute: raw.len() > 0 && raw[0] == '/',
        components: components_upto(raw, segments(raw).len()),
    }
}

/// `Path::starts_with`: `base` is a component-wise prefix of `p`.
pub open spec fn path_starts_with(p: PathModel, base: PathModel) -> bool {
    &&& p.absolute == base.absolute
    &&& base.components.len() <= p.components.len()
    &&& p.components.take(base.components.len() as int) == base.components
}

/// `Path::join`: an absolute `rel` replaces `base`; a relative one is appended,
/// without its leading `.`.
pub open spec fn path_join(base: PathModel, rel: PathModel) -> PathModel {
    if rel.absolute {
        rel
    } else {
        let tail = if rel.components.len() > 0 && rel.components[0] == dot() {
            rel.components.drop_first()
        } else {
            rel.components
        };
        PathModel { absolute: base.absolute, components: base.components + tail }
    }
}

/// `Path::file_name`: the last component, unless it is `.` or `..` (or there is none).
pub open spec fn file_name(p: PathModel) -> Option<Seq<char>> {
    if p.components.len() == 0 {
        None
    } else {
        let last = p.components.last();
        if last == dot() || last == seq!['.', '.'] {
            None
        } else {
            Some(last)
        }
    }
}

/// `name[i]` is the last `.` of `name`.
pub open spec fn is_last_dot(name: Seq<char>, i: int) -> bool {
    &&& 0 <= i < name.len()
    &&& name[i] == '.'
    &&& forall|k: int| i < k < name.len() ==> name[k] != '.'
}

/// The position of the last `.` in `name`, if any.
pub open spec fn last_dot(name: Seq<char>) -> Option<int> {
    if exists|i: int| is_last_dot(name, i) {
        Some(choose|i: int| is_last_dot(name, i))
    } else {
        None
    }
}

/// `Path::extension`: the text after the last `.` of the file name, unless that
/// `.` is the first character of the name.
pub open spec fn extension(p: PathModel) -> Option<Seq<char>> {
    match file_name(p) {
        None => None,
        Some(name) => match last_dot(name) {
            Some(i) => if i > 0 {
                Some(name.skip(i + 1))
            } else {
                None
            },
            None => None,
        },
    }
}

/// How `Path::display` prints a path.
pub open spec fn display_path(p: PathModel) -> Seq<char> {
    let body = join_components(p.components, p.components.len());
    if p.absolute {
        seq!['/'] + body
    } else {
        body
    }
}

/// The first `n` components, separated by `/`.
pub open spec fn join_components(cs: Seq<Seq<char>>, n: nat) -> Seq<char>
    decreases n,
{
    if n == 0 || n > cs.len() {
        Seq::empty()
    } else if n == 1 {
        cs[0]
    } else {
        join_components(cs, (n - 1) as nat) + seq!['/'] + cs[n - 1]
    }
}

proof fn lemma_segments_nonempty(s: Seq<char>)
    ensures
        segments(s).len() >= 1,
    decreases s.len(),
{
    if s.len() > 0 {
        lemma_segments_nonempty(s.drop_last());
    }
}

/// Splitting the text one character at a time builds the same segments.
proof fn lemma_segments_step(s: Seq<char>, i: int)
    requires
        0 <= i < s.len(),
    ensures
        segments(s.take(i + 1)) == (if s[i] == '/' {
            segments(s.take(i)).push(Seq::empty())
        } else {
            segments(s.take(i)).update(
                segments(s.take(i)).len() - 1,
                segments(s.take(i)).last().push(s[i]),
            )
        }),
{
    assert(s.take(i + 1).drop_last() =~= s.take(i));
}

impl FsPath {
    /// The path that `PathBuf::from(raw)` denotes on Unix.
    pub fn parse(raw: &str) -> (r: FsPath)
        ensures
            r@ == parse_path(raw@),
    {
        let cs = chars_of(raw);
        // split into segments
        let mut segs: Vec<Vec<char>> = Vec::new();
        segs.push(Vec::new());
        let mut i: usize = 0;
        assert(cs@.take(0) =~= Seq::<char>::empty());
        while i < cs.len()
            invariant
                i <= cs@.len(),
                cs@ == raw@,
                segs@.len() >= 1,
                Seq::new(segs@.len(), |k: int| segs@[k]@) == segments(cs@.take(i as int)),
            decreases cs@.len() - i,
        {
            proof {
                lemma_segments_step(cs@, i as int);
            }
            let ghost before = Seq::new(segs@.len(), |k: int| segs@[k]@);
            if cs[i] == '/' {
                segs.push(Vec::new());
                assert(Seq::new(segs@.len(), |k: int| segs@[k]@) =~= before.push(Seq::empty()));
            } else {
                let last = segs.len() - 1;
                let mut seg = segs.pop().unwrap();
                seg.push(cs[i]);
                segs.push(seg);
                assert(Seq::new(segs@.len(), |k: int| segs@[k]@) =~= before.update(
                    before.len() - 1,
                    before.last().push(cs@[i as int]),
                ));
            }
            i = i + 1;
        }
        assert(cs@.take(cs@.len() as int) =~= cs@);
        let ghost segv = Seq::new(segs@.len(), |k: int| segs@[k]@);
        assert(segv == segments(raw@));
        let absolute = cs.len() > 0 && cs[0] == '/';
        let dotv: Vec<char> = vec!['.'];
        assert(dotv@ =~= dot());
        let mut comps: Vec<String> = Vec::new();
        let mut j: usize = 0;
        while j < segs.len()
            invariant
                j <= segs@.len(),
                segv == Seq::new(segs@.len(), |k: int| segs@[k]@),
                segv == segments(raw@),
                dotv@ == dot(),
                absolute == (raw@.len() > 0 && raw@[0] == '/'),
                Seq::new(comps@.len(), |k: int| comps@[k]@) == components_upto(raw@, j as nat),
            decreases segs@.len() - j,
        {
            let ghost before = Seq::new(comps@.len(), |k: int| comps@[k]@);
            let seg = &segs[j];
            assert(seg@ == segv[j as int]);
            let is_dot = chars_eq(seg, &dotv);
            let keep = seg.len() > 0 && (!is_dot || (j == 0 && !absolute));
            assert(keep == keeps_segment(raw@, j as int));
            if keep {
                comps.push(string_of(seg));
                assert(Seq::new(comps@.len(), |k: int| comps@[k]@) =~= before.push(segv[j as int]));
            }
            j = j + 1;
        }
        FsPath { absolute, components: comps }
    }

    /// `Path::starts_with`.
    pub fn starts_with(&self, base: &FsPath) -> (r: bool)
        ensures
            r == path_starts_with(self@, base@),
    {
        if self.absolute != base.absolute || base.components.len() > self.components.len() {
            return false;
        }
        let mut i: usize = 0;
        while i < base.components.len()
            invariant
                i <= base.components@.len() <= self.components@.len(),
                forall|k: int| 0 <= k < i ==> self.components@[k]@ == base.components@[k]@,
            decreases base.components@.len() - i,
        {
            if self.components[i] != base.components[i] {
                assert(self@.components.take(base@.components.len() as int)[i as int]
                    != base@.components[i as int]);
                return false;
            }
            i = i + 1;
        }
        assert(self@.components.take(base@.components.len() as int) =~= base@.components);
        true
    }

    /// `Path::join`.
    pub fn join(&self, rel: &FsPath) -> (r: FsPath)
        ensures
            r@ == path_join(self@, rel@),
    {
        if rel.absolute {
            return rel.copy();
        }
        let mut comps: Vec<String> = Vec::new();
        let mut i: usize = 0;
        while i < self.components.len()
            invariant
                i <= self.components@.len(),
                Seq::new(comps@.len(), |k: int| comps@[k]@) == self@.components.take(i as int),
            decreases self.components@.len() - i,
        {
            let c = self.components[i].clone();
            assert(c@ == self@.components[i as int]);
            let ghost prev = Seq::new(comps@.len(), |k: int| comps@[k]@);
            comps.push(c);
            assert(Seq::new(comps@.len(), |k: int| comps@[k]@) =~= prev.push(c@));
            assert(self@.components.take(i + 1) =~= self@.components.take(i as int).push(
                self@.components[i as int],
            ));
            i = i + 1;
        }
        assert(self@.components.take(self@.components.len() as int) =~= self@.components);
        let dotv: Vec<char> = vec!['.'];
        assert(dotv@ =~= dot());
        let skip_first: bool = rel.components.len() > 0 && chars_eq(
            &chars_of(rel.components[0].as_str()),
            &dotv,
        );
        let ghost tail = if skip_first {
            rel@.components.drop_first()
        } else {
            rel@.components
        };
        let start: usize = if skip_first {
            1
        } else {
            0
        };
        let mut j: usize = start;
        while j < rel.components.len()
            invariant
                start <= j <= rel.components@.len(),
                start == (if skip_first {
                    1int
                } else {
                    0int
                }),
                tail == rel@.components.skip(start as int),
                Seq::new(comps@.len(), |k: int| comps@[k]@) == self@.components + tail.take(
                    j - start,
                ),
            decreases rel.components@.len() - j,
        {
            let c = rel.components[j].clone();
            assert(c@ == rel@.components[j as int]);
            comps.push(c);
            assert(self@.components + tail.take(j + 1 - start) =~= (self@.components + tail.take(
                j - start,
            )).push(rel@.components[j as int]));
            assert(Seq::new(comps@.len(), |k: int| comps@[k]@) =~= self@.components + tail.take(
                j + 1 - start,
            ));
            j = j + 1;
        }
        assert(tail.take(rel.components@.len() - start) =~= tail);
        FsPath { absolute: self.absolute, components: comps }
    }

    /// A copy of the path.
    pub fn copy(&self) -> (r: FsPath)
        ensures
            r@ == self@,
    {
        let mut comps: Vec<String> = Vec::new();
        let mut i: usize = 0;
        while i < self.components.len()
            invariant
                i <= self.components@.len(),
                Seq::new(comps@.len(), |k: int| comps@[k]@) == self@.components.take(i as int),
            decreases self.components@.len() - i,
        {
            let c = self.components[i].clone();
            assert(c@ == self@.components[i as int]);
            let ghost prev = Seq::new(comps@.len(), |k: int| comps@[k]@);
            comps.push(c);
            assert(Seq::new(comps@.len(), |k: int| comps@[k]@) =~= prev.push(c@));
            assert(self@.components.take(i + 1) =~= self@.components.take(i as int).push(
                self@.components[i as int],
            ));
            i = i + 1;
        }
        assert(self@.components.take(self@.components.len() as int) =~= self@.components);
        FsPath { absolute: self.absolute, components: comps }
    }

    /// `Path::file_name`.
    pub fn file_name(&self) -> (r: Option<&String>)
        ensures
            match r {
                Some(n) => file_name(self@) == Some(n@),
                None => file_name(self@) is None,
            },
    {
        if self.components.len() == 0 {
            return None;
        }
        let last = &self.components[self.components.len() - 1];
        let lc = chars_of(last.as_str());
        let dotv: Vec<char> = vec!['.'];
        let dotdot: Vec<char> = vec!['.', '.'];
        assert(dotv@ =~= dot());
        assert(dotdot@ =~= seq!['.', '.']);
        if chars_eq(&lc, &dotv) || chars_eq(&lc, &dotdot) {
            None
        } else {
            Some(last)
        }
    }

    /// `Path::extension`.
    pub fn extension(&self) -> (r: Option<Vec<char>>)
        ensures
            match r {
                Some(e) => extension(self@) == Some(e@),
                None => extension(self@) is None,
            },
    {
        match self.file_name() {
            None => None,
            Some(name) => {
                let cs = chars_of(name.as_str());
                let mut i: usize = cs.len();
                while i > 0
                    invariant
                        i <= cs@.len(),
                        cs@ == name@,
                        file_name(self@) == Some(name@),
                        forall|k: int| i <= k < cs@.len() ==> cs@[k] != '.',
                    decreases i,
                {
                    if cs[i - 1] == '.' {
                        let d = i - 1;
                        proof {
                            assert(is_last_dot(cs@, d as int));
                            let c = choose|c: int| is_last_dot(cs@, c);
                            assert(is_last_dot(cs@, c));
                            if c < d {
                                assert(cs@[d as int] != '.');
                            } else if c > d {
                                assert(cs@[c] != '.');
                            }
                            assert(last_dot(cs@) == Some(d as int));
                        }
                        if d > 0 {
                            let mut out: Vec<char> = Vec::new();
                            let mut k: usize = i;
                            while k < cs.len()
                                invariant
                                    i <= k <= cs@.len(),
                                    cs@ == name@,
                                    out@ == cs@.subrange(i as int, k as int),
                                decreases cs@.len() - k,
                            {
                                out.push(cs[k]);
                                assert(out@ =~= cs@.subrange(i as int, k + 1));
                                k = k + 1;
                            }
                            assert(out@ =~= cs@.skip(i as int));
                            return Some(out);
                        } else {
                            return None;
                        }
                    }
                    i = i - 1;
                }
                assert forall|c: int| !is_last_dot(cs@, c) by {
                    if 0 <= c < cs@.len() {
                        assert(cs@[c] != '.');
                    }
                }
                assert(last_dot(cs@) is None);
                None
            },
        }
    }

    /// How `Path::display` prints the path.
    pub fn display(&self) -> (r: String)
        ensures
            r@ == display_path(self@),
    {
        let mut out = String::new();
        if self.absolute {
            push_char(&mut out, '/');
        }
        let ghost start = out@;
        let mut i: usize = 0;
        while i < self.components.len()
            invariant
                i <= self.components@.len(),
                out@ == start + join_components(self@.components, i as nat),
            decreases self.components@.len() - i,
        {
            if i > 0 {
                push_char(&mut out, '/');
            }
            let cs = chars_of(self.components[i].as_str());
            push_chars(&mut out, &cs);
            assert(out@ =~= start + join_components(self@.components, (i + 1) as nat));
            i = i + 1;
        }
        assert(out@ =~= display_path(self@));
        out
    }
}

} // verus!
