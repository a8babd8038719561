//! Reading a model from the lines of an OBJ file.
//!
//! A line is a keyword and the words behind it.  The lines `v`, `vt` and
//! `vn` list positions, texture coordinates and normals, three, two and
//! three numbers each.  A line `f` lists the vertices of a face; each of its
//! words names, between slashes, a position, a texture coordinate and a
//! normal by their place in the lists so far, counted from one.  Other lines
//! are passed over.

use crate::error::BrumousError;
use crate::error::BrumousResult;
use crate::parse::parse_i32;
use crate::parse::same_text;
use crate::parse::signed;
use crate::particle::ParticleVertex;
use vstd::prelude::*;
use vstd::string::StrSliceExecFns;

verus! {

/// The part of a vertex that a number in a word of a face names.
#[derive(Clone, Copy, Debug, PartialEq, Eq)]
pub enum Vertex {
    Position,
    TexCoords,
    Normal,
}

impl Vertex {
    /// The part that comes after this one, the first coming after the last.
    pub open spec fn spec_next(self) -> Vertex {
        match self {
            Vertex::Position => Vertex::TexCoords,
            Vertex::TexCoords => Vertex::Normal,
            Vertex::Normal => Vertex::Position,
        }
    }

    /// Moves on to the part that comes after this one.
    pub fn next(&mut self)
        ensures
            *final(self) == old(self).spec_next(),
    {
        *self = match self {
            Vertex::Position => Vertex::TexCoords,
            Vertex::TexCoords => Vertex::Normal,
            Vertex::Normal => Vertex::Position,
        }
    }
}

/// Whether a character is blank: one of the characters that Unicode calls
/// white space, which part the words of a line.
pub open spec fn is_blank(c: char) -> bool {
    let n = c as u32;
    ||| 0x09 <= n <= 0x0d
    ||| n == 0x20
    ||| n == 0x85
    ||| n == 0xa0
    ||| n == 0x1680
    ||| 0x2000 <= n <= 0x200a
    ||| n == 0x2028
    ||| n == 0x2029
    ||| n == 0x202f
    ||| n == 0x205f
    ||| n == 0x3000
}

/// Whether a character is blank.
pub fn blank(c: char) -> (b: bool)
    ensures
        b == is_blank(c),
{
    let n: u32 = c as u32;
    (0x09 <= n && n <= 0x0d) || n == 0x20 || n == 0x85 || n == 0xa0 || n == 0x1680 || (0x2000 <= n
        && n <= 0x200a) || n == 0x2028 || n == 0x2029 || n == 0x202f || n == 0x205f || n == 0x3000
}

/// The words of a line: its longest runs of characters that are not blank,
/// in their order.  A character that is not blank ends the last word of
/// what stands before it, if no blank parts them, and is a word of its own
/// if one does.
pub open spec fn words(line: Seq<char>) -> Seq<Seq<char>>
    decreases line.len(),
{
    if line.len() == 0 {
        Seq::empty()
    } else {
        let before = words(line.drop_last());
        if is_blank(line.last()) {
            before
        } else if line.len() == 1 || is_blank(line[line.len() - 2]) {
            before.push(seq![line.last()])
        } else {
            before.drop_last().push(before.last().push(line.last()))
        }
    }
}

/// The texts of `words`.
pub open spec fn texts(words: Seq<String>) -> Seq<Seq<char>> {
    Seq::new(words.len(), |k: int| words[k]@)
}

/// The words of a line, which blanks part.
pub fn line_words(line: &str) -> (out: Vec<String>)
    ensures
        texts(out@) == words(line@),
{
    let mut out: Vec<String> = Vec::new();
    let mut word: String = String::new();
    let mut in_word: bool = false;
    proof {
        assert(line@.take(0) =~= Seq::<char>::empty());
        assert(texts(out@) =~= words(line@.take(0)));
    }
    for c in iter: line.chars()
        invariant
            iter.seq() == line@,
            in_word == (iter.index() > 0 && !is_blank(line@[iter.index() - 1])),
            !in_word ==> word@ == Seq::<char>::empty() && texts(out@) == words(
                line@.take(iter.index() as int),
            ),
            in_word ==> words(line@.take(iter.index() as int)) == texts(out@).push(word@),
    {
        let ghost i = iter.index() as int;
        let ghost more = line@.take(i + 1);
        let ghost done = texts(out@);
        let ghost letters = word@;
        proof {
            assert(more.drop_last() =~= line@.take(i));
            assert(more.last() == c);
            if i > 0 {
                assert(more[more.len() - 2] == line@[i - 1]);
            }
        }
        if blank(c) {
            if in_word {
                out.push(word);
                word = String::new();
                proof {
                    assert(texts(out@) =~= done.push(letters));
                }
            }
            in_word = false;
        } else {
            word.push(c);
            proof {
                if in_word {
                    assert(done.push(letters).drop_last() =~= done);
                } else {
                    assert(word@ =~= seq![c]);
                }
            }
            in_word = true;
        }
    }
    proof {
        assert(line@.take(line@.len() as int) =~= line@);
    }
    if in_word {
        let ghost done = texts(out@);
        let ghost letters = word@;
        out.push(word);
        proof {
            assert(texts(out@) =~= done.push(letters));
        }
    }
    out
}

/// The lines of a text: what stands between its line feeds, in order.  A
/// text has one line more than it has line feeds, so that a text that ends
/// in a line feed ends in an empty line.
pub open spec fn lines(text: Seq<char>) -> Seq<Seq<char>>
    decreases text.len(),
{
    if text.len() == 0 {
        seq![Seq::empty()]
    } else {
        let before = lines(text.drop_last());
        if text.last() == '\n' {
            before.push(Seq::empty())
        } else {
            before.drop_last().push(before.last().push(text.last()))
        }
    }
}

/// The lines of a text, which line feeds part.
pub fn text_lines(text: &str) -> (out: Vec<String>)
    ensures
        texts(out@) == lines(text@),
{
    let mut out: Vec<String> = Vec::new();
    let mut line: String = String::new();
    proof {
        assert(text@.take(0) =~= Seq::<char>::empty());
        assert(texts(out@).push(line@) =~= lines(text@.take(0)));
    }
    for c in iter: text.chars()
        invariant
            iter.seq() == text@,
            lines(text@.take(iter.index() as int)) == texts(out@).push(line@),
    {
        let ghost i = iter.index() as int;
        let ghost more = text@.take(i + 1);
        let ghost done = texts(out@);
        let ghost letters = line@;
        proof {
            assert(more.drop_last() =~= text@.take(i));
            assert(more.last() == c);
            assert(done.push(letters).drop_last() =~= done);
        }
        if c == '\n' {
            out.push(line);
            line = String::new();
            proof {
                assert(texts(out@) =~= done.push(letters));
            }
        } else {
            line.push(c);
        }
    }
    proof {
        assert(text@.take(text@.len() as int) =~= text@);
    }
    let ghost done = texts(out@);
    let ghost letters = line@;
    out.push(line);
    proof {
        assert(texts(out@) =~= done.push(letters));
    }
    out
}

/// A word of a line, with the number that it writes, if it writes one; the
/// number is held as the 32 bits of a floating-point number.
pub struct ObjToken {
    pub text: String,
    pub number: Option<u32>,
}

/// A line as its words, the keyword first.
pub struct ObjLine {
    pub tokens: Vec<ObjToken>,
}

/// What is wrong with a line.
#[derive(Clone, Copy, Debug, PartialEq, Eq)]
pub enum ObjFault {
    /// A word that should be a number is none.
    Float,
    /// A word of a face holds, before a slash, what is no whole number.
    Int,
    /// A line lists too few numbers, or a word of a face names a place that
    /// its list does not have.
    VertexData,
}

/// What has been read of a model: the lists, and the vertices of the faces.
pub struct ObjData {
    pub v: Vec<[u32; 3]>,
    pub vt: Vec<[u32; 2]>,
    pub vn: Vec<[u32; 3]>,
    pub vertices: Vec<ParticleVertex>,
}

/// What has been read of a model, as the contracts see it.
pub struct ObjState {
    pub v: Seq<[u32; 3]>,
    pub vt: Seq<[u32; 2]>,
    pub vn: Seq<[u32; 3]>,
    pub vertices: Seq<ParticleVertex>,
}

impl View for ObjData {
    type V = ObjState;

    open spec fn view(&self) -> ObjState {
        ObjState { v: self.v@, vt: self.vt@, vn: self.vn@, vertices: self.vertices@ }
    }
}

/// The places below `n` at which `chars` has a slash, in ascending order.
pub open spec fn cuts(chars: Seq<char>, n: int) -> Seq<int>
    decreases n,
{
    if n <= 0 {
        Seq::empty()
    } else if chars[n - 1] == '/' {
        cuts(chars, n - 1).push(n - 1)
    } else {
        cuts(chars, n - 1)
    }
}

/// The `j`-th piece of `chars`, counted from zero: what stands before the
/// `j`-th of the slashes at `c`, behind the slash before it.
pub open spec fn piece(chars: Seq<char>, c: Seq<int>, j: int) -> Seq<char> {
    chars.subrange(
        if j == 0 {
            0
        } else {
            c[j - 1] + 1
        },
        c[j],
    )
}

/// The part of a vertex that the `j`-th piece of a word names: position,
/// texture coordinates, normal, and so on in turn.
pub open spec fn field(j: int) -> Vertex {
    if j % 3 == 0 {
        Vertex::Position
    } else if j % 3 == 1 {
        Vertex::TexCoords
    } else {
        Vertex::Normal
    }
}

impl ObjState {
    /// Nothing read yet.
    pub open spec fn empty() -> ObjState {
        ObjState { v: Seq::empty(), vt: Seq::empty(), vn: Seq::empty(), vertices: Seq::empty() }
    }

    /// `vertex` with the part `part` taken from the place that `text` names
    /// in the part's list.  An empty `text` names nothing and leaves the
    /// vertex as it is.
    pub open spec fn put(self, vertex: ParticleVertex, part: Vertex, text: Seq<char>) -> Result<
        ParticleVertex,
        ObjFault,
    > {
        if text.len() == 0 {
            Ok(vertex)
        } else {
            match signed(text) {
                Some(n) => if !(i32::MIN <= n <= i32::MAX) {
                    Err(ObjFault::Int)
                } else {
                    match part {
                        Vertex::Position => if 1 <= n <= self.v.len() {
                            Ok(ParticleVertex { position: self.v[n - 1], ..vertex })
                        } else {
                            Err(ObjFault::VertexData)
                        },
                        Vertex::TexCoords => if 1 <= n <= self.vt.len() {
                            Ok(ParticleVertex { tex_coords: self.vt[n - 1], ..vertex })
                        } else {
                            Err(ObjFault::VertexData)
                        },
                        Vertex::Normal => if 1 <= n <= self.vn.len() {
                            Ok(ParticleVertex { normal: self.vn[n - 1], ..vertex })
                        } else {
                            Err(ObjFault::VertexData)
                        },
                    }
                },
                None => Err(ObjFault::Int),
            }
        }
    }

    /// The vertex that the first `j` pieces of a word make, `c` being the
    /// places of the word's slashes; the first piece that is at fault is the
    /// fault of the word.
    pub open spec fn face_after(self, chars: Seq<char>, c: Seq<int>, j: int) -> Result<
        ParticleVertex,
        ObjFault,
    >
        decreases j,
    {
        if j <= 0 {
            Ok(ParticleVertex::zero())
        } else {
            match self.face_after(chars, c, j - 1) {
                Ok(vertex) => self.put(vertex, field(j - 1), piece(chars, c, j - 1)),
                Err(fault) => Err(fault),
            }
        }
    }

    /// The vertex that a word of a face names.  The pieces of the word are
    /// what stands before each of its slashes; what stands behind the last
    /// slash names nothing.
    pub open spec fn face(self, chars: Seq<char>) -> Result<ParticleVertex, ObjFault> {
        let c = cuts(chars, chars.len() as int);
        self.face_after(chars, c, c.len() as int)
    }

    /// The vertices that the words of a face name, in their order; the first
    /// word that is at fault is the fault of the face.
    pub open spec fn faces(self, tokens: Seq<ObjToken>) -> Result<Seq<ParticleVertex>, ObjFault>
        decreases tokens.len(),
    {
        if tokens.len() == 0 {
            Ok(Seq::empty())
        } else {
            match self.faces(tokens.drop_last()) {
                Ok(vertices) => match self.face(tokens.last().text@) {
                    Ok(vertex) => Ok(vertices.push(vertex)),
                    Err(fault) => Err(fault),
                },
                Err(fault) => Err(fault),
            }
        }
    }

    /// What has been read once `line` is read too.
    pub open spec fn after_line(self, line: ObjLine) -> Result<ObjState, ObjFault> {
        if line.tokens@.len() == 0 {
            Ok(self)
        } else {
            let key = line.tokens@[0].text@;
            let rest = line.tokens@.skip(1);
            if key == "v"@ {
                match numbers(rest) {
                    Some(n) => if n.len() >= 3 {
                        Ok(ObjState { v: self.v.push([n[0], n[1], n[2]]), ..self })
                    } else {
                        Err(ObjFault::VertexData)
                    },
                    None => Err(ObjFault::Float),
                }
            } else if key == "vt"@ {
                match numbers(rest) {
                    Some(n) => if n.len() >= 2 {
                        Ok(ObjState { vt: self.vt.push([n[0], n[1]]), ..self })
                    } else {
                        Err(ObjFault::VertexData)
                    },
                    None => Err(ObjFault::Float),
                }
            } else if key == "vn"@ {
                match numbers(rest) {
                    Some(n) => if n.len() >= 3 {
                        Ok(ObjState { vn: self.vn.push([n[0], n[1], n[2]]), ..self })
                    } else {
                        Err(ObjFault::VertexData)
                    },
                    None => Err(ObjFault::Float),
                }
            } else if key == "f"@ {
                match self.faces(rest) {
                    Ok(vertices) => Ok(ObjState { vertices: self.vertices + vertices, ..self }),
                    Err(fault) => Err(fault),
                }
            } else {
                Ok(self)
            }
        }
    }
}

/// The numbers that `tokens` write; none if one of them writes no number.
pub open spec fn numbers(tokens: Seq<ObjToken>) -> Option<Seq<u32>>
    decreases tokens.len(),
{
    if tokens.len() == 0 {
        Some(Seq::empty())
    } else {
        match (numbers(tokens.drop_last()), tokens.last().number) {
            (Some(n), Some(x)) => Some(n.push(x)),
            _ => None,
        }
    }
}

/// What has been read after the first `n` of `lines`, or the first fault
/// with the number of its line, counted from one.
pub open spec fn after_lines(lines: Seq<ObjLine>, n: int) -> Result<ObjState, (ObjFault, int)>
    decreases n,
{
    if n <= 0 {
        Ok(ObjState::empty())
    } else {
        match after_lines(lines, n - 1) {
            Ok(state) => match state.after_line(lines[n - 1]) {
                Ok(next) => Ok(next),
                Err(fault) => Err((fault, n)),
            },
            Err(e) => Err(e),
        }
    }
}

/// Whether `error` tells of `fault` on the line `line` of the file at
/// `path`.
pub open spec fn tells(error: BrumousError, fault: ObjFault, path: Seq<char>, line: int) -> bool {
    match fault {
        ObjFault::Float => error matches BrumousError::ParseFloat(p, l) && p@ == path && l == line,
        ObjFault::Int => error matches BrumousError::ParseInt(p, l) && p@ == path && l == line,
        ObjFault::VertexData => error matches BrumousError::InvalidVertexData(p, l) && p@ == path
            && l == line,
    }
}

/// The first `j` pieces of a word depend on its first `j` slashes alone.
pub proof fn lemma_face_after_cuts(s: ObjState, chars: Seq<char>, a: Seq<int>, b: Seq<int>, j: int)
    requires
        0 <= j <= a.len(),
        j <= b.len(),
        forall|k: int| 0 <= k < j ==> a[k] == b[k],
    ensures
        s.face_after(chars, a, j) == s.face_after(chars, b, j),
    decreases j,
{
    if j > 0 {
        lemma_face_after_cuts(s, chars, a, b, j - 1);
        assert(piece(chars, a, j - 1) == piece(chars, b, j - 1));
    }
}

impl ObjData {
    /// Nothing read yet.
    pub fn new() -> (data: Self)
        ensures
            data@ == ObjState::empty(),
    {
        Self { v: Vec::new(), vt: Vec::new(), vn: Vec::new(), vertices: Vec::new() }
    }

    /// The vertex that `token`, a word of a face, names.
    pub fn face_vertex(&self, token: &str) -> (r: Result<ParticleVertex, ObjFault>)
        ensures
            r == self@.face(token@),
    {
        let n: usize = token.unicode_len();
        let mut part = Vertex::Position;
        let mut vertex = ParticleVertex::default();
        let mut start: usize = 0;
        let mut i: usize = 0;
        while i < n
            invariant
                i <= n,
                n == token@.len(),
                start <= i,
                part == field(cuts(token@, i as int).len() as int),
                self@.face_after(token@, cuts(token@, i as int), cuts(token@, i as int).len() as int)
                    == Ok::<ParticleVertex, ObjFault>(vertex),
                start == if cuts(token@, i as int).len() == 0 {
                    0
                } else {
                    cuts(token@, i as int).last() + 1
                },
            decreases n - i,
        {
            let ghost c = cuts(token@, i as int);
            let ghost more = cuts(token@, i + 1);
            let c_char: char = token.get_char(i);
            proof {
                lemma_cuts_below(token@, i as int);
            }
            if c_char == '/' {
                proof {
                    assert(more == c.push(i as int));
                    lemma_face_after_cuts(self@, token@, c, more, c.len() as int);
                    assert(piece(token@, more, c.len() as int) == token@.subrange(
                        start as int,
                        i as int,
                    ));
                }
                if start < i {
                    let k: i32 = match parse_i32(token, start, i) {
                        Some(k) => k,
                        None => {
                            proof {
                                lemma_fault_stays(self@, token@, i + 1, n as int);
                            }
                            return Err(ObjFault::Int);
                        },
                    };
                    let len: usize = match part {
                        Vertex::Position => self.v.len(),
                        Vertex::TexCoords => self.vt.len(),
                        Vertex::Normal => self.vn.len(),
                    };
                    if k < 1 || k as u64 > len as u64 {
                        proof {
                            lemma_fault_stays(self@, token@, i + 1, n as int);
                        }
                        return Err(ObjFault::VertexData);
                    }
                    let place: usize = (k - 1) as usize;
                    match part {
                        Vertex::Position => {
                            vertex.position = self.v[place];
                        },
                        Vertex::TexCoords => {
                            vertex.tex_coords = self.vt[place];
                        },
                        Vertex::Normal => {
                            vertex.normal = self.vn[place];
                        },
                    }
                }
                part.next();
                start = i + 1;
            }
            i += 1;
        }
        Ok(vertex)
    }

    /// Reads a line: a position, a texture coordinate or a normal joins its
    /// list, the vertices of a face join the vertices, and any other line is
    /// passed over.  After a fault nothing is known of what has been read.
    pub fn read_line(&mut self, line: &ObjLine) -> (r: Result<(), ObjFault>)
        ensures
            match old(self)@.after_line(*line) {
                Ok(state) => r is Ok && final(self)@ == state,
                Err(fault) => r == Err::<(), ObjFault>(fault),
            },
    {
        if line.tokens.len() == 0 {
            return Ok(());
        }
        let key: &str = line.tokens[0].text.as_str();
        if same_text(key, "v") {
            let n: Vec<u32> = read_numbers(&line.tokens)?;
            if n.len() < 3 {
                return Err(ObjFault::VertexData);
            }
            self.v.push([n[0], n[1], n[2]]);
        } else if same_text(key, "vt") {
            let n: Vec<u32> = read_numbers(&line.tokens)?;
            if n.len() < 2 {
                return Err(ObjFault::VertexData);
            }
            self.vt.push([n[0], n[1]]);
        } else if same_text(key, "vn") {
            let n: Vec<u32> = read_numbers(&line.tokens)?;
            if n.len() < 3 {
                return Err(ObjFault::VertexData);
            }
            self.vn.push([n[0], n[1], n[2]]);
        } else if same_text(key, "f") {
            let ghost start = self@;
            let ghost rest = line.tokens@.skip(1);
            let mut k: usize = 1;
            proof {
                assert(rest.take(0) =~= Seq::<ObjToken>::empty());
                assert(self@.vertices =~= start.vertices + Seq::<ParticleVertex>::empty());
            }
            while k < line.tokens.len()
                invariant
                    1 <= k <= line.tokens.len(),
                    rest == line.tokens@.skip(1),
                    old(self)@.after_line(*line) == match start.faces(rest) {
                        Ok(vertices) => Ok::<ObjState, ObjFault>(
                            ObjState { vertices: start.vertices + vertices, ..start },
                        ),
                        Err(fault) => Err::<ObjState, ObjFault>(fault),
                    },
                    start.faces(rest.take(k - 1)) matches Ok(vertices) && self@ == (ObjState {
                        vertices: start.vertices + vertices,
                        ..start
                    }),
                decreases line.tokens.len() - k,
            {
                let ghost lists = self@;
                proof {
                    assert(rest.take(k as int).drop_last() =~= rest.take(k - 1));
                    assert(rest.take(k as int).last() == line.tokens@[k as int]);
                    lemma_face_lists(lists, start, line.tokens@[k as int].text@);
                }
                let vertex: ParticleVertex = match self.face_vertex(line.tokens[k].text.as_str()) {
                    Ok(vertex) => vertex,
                    Err(fault) => {
                        proof {
                            assert(start.faces(rest.take(k as int)) == Err::<Seq<ParticleVertex>, ObjFault>(
                                fault,
                            ));
                            lemma_faces_grow(start, rest, k as int);
                        }
                        return Err(fault);
                    },
                };
                self.vertices.push(vertex);
                proof {
                    let before = start.faces(rest.take(k - 1))->Ok_0;
                    assert(self@.vertices =~= start.vertices + before.push(vertex));
                }
                k += 1;
            }
            proof {
                assert(rest.take(line.tokens.len() - 1) =~= rest);
            }
        }
        Ok(())
    }
}

/// Each slash below a place lies below the place.
pub proof fn lemma_cuts_below(chars: Seq<char>, i: int)
    ensures
        forall|k: int| 0 <= k < cuts(chars, i).len() ==> 0 <= #[trigger] cuts(chars, i)[k] < i,
    decreases i,
{
    if i > 0 {
        lemma_cuts_below(chars, i - 1);
        let before = cuts(chars, i - 1);
        assert forall|k: int| 0 <= k < cuts(chars, i).len() implies 0 <= #[trigger] cuts(chars, i)[k]
            < i by {
            if k < before.len() {
                assert(cuts(chars, i)[k] == before[k]);
            }
        }
    }
}

/// The slashes below a place are the first of the slashes below a later
/// place.
pub proof fn lemma_cuts_grow(chars: Seq<char>, i: int, n: int)
    requires
        0 <= i <= n,
    ensures
        cuts(chars, i).len() <= cuts(chars, n).len(),
        forall|k: int| 0 <= k < cuts(chars, i).len() ==> cuts(chars, i)[k] == cuts(chars, n)[k],
    decreases n,
{
    if i < n {
        lemma_cuts_grow(chars, i, n - 1);
    }
}

/// A fault among the first pieces of a word is the fault of the word.
pub proof fn lemma_fault_stays(s: ObjState, chars: Seq<char>, i: int, n: int)
    requires
        0 <= i <= n,
        n == chars.len(),
        s.face_after(chars, cuts(chars, i), cuts(chars, i).len() as int) is Err,
    ensures
        s.face(chars) == s.face_after(chars, cuts(chars, i), cuts(chars, i).len() as int),
{
    let c = cuts(chars, i);
    let full = cuts(chars, n);
    lemma_cuts_grow(chars, i, n);
    lemma_face_after_cuts(s, chars, c, full, c.len() as int);
    if c.len() < full.len() {
        lemma_fault_stays_from(s, chars, full, c.len() as int + 1, full.len() as int);
    }
}

/// A fault among the first pieces of a word stays as more pieces are read.
pub proof fn lemma_fault_stays_from(s: ObjState, chars: Seq<char>, c: Seq<int>, j: int, k: int)
    requires
        1 <= j <= k,
        s.face_after(chars, c, j - 1) is Err,
    ensures
        s.face_after(chars, c, k) == s.face_after(chars, c, j - 1),
    decreases k - j,
{
    assert(s.face_after(chars, c, j) == s.face_after(chars, c, j - 1));
    if j < k {
        lemma_fault_stays_from(s, chars, c, j + 1, k);
    }
}

/// A fault among the first words of a face is the fault of the face.
pub proof fn lemma_faces_grow(s: ObjState, tokens: Seq<ObjToken>, k: int)
    requires
        0 <= k <= tokens.len(),
        s.faces(tokens.take(k)) is Err,
    ensures
        s.faces(tokens) == s.faces(tokens.take(k)),
    decreases tokens.len() - k,
{
    if k == tokens.len() {
        assert(tokens.take(k) =~= tokens);
    } else {
        assert(tokens.take(k + 1).drop_last() =~= tokens.take(k));
        lemma_faces_grow(s, tokens, k + 1);
    }
}

/// The vertex that a word names depends on the lists alone.
pub proof fn lemma_face_lists(a: ObjState, b: ObjState, chars: Seq<char>)
    requires
        a.v == b.v,
        a.vt == b.vt,
        a.vn == b.vn,
    ensures
        a.face(chars) == b.face(chars),
{
    let c = cuts(chars, chars.len() as int);
    lemma_face_after_lists(a, b, chars, c, c.len() as int);
}

/// The vertex that the pieces of a word make depends on the lists alone.
pub proof fn lemma_face_after_lists(a: ObjState, b: ObjState, chars: Seq<char>, c: Seq<int>, j: int)
    requires
        a.v == b.v,
        a.vt == b.vt,
        a.vn == b.vn,
    ensures
        a.face_after(chars, c, j) == b.face_after(chars, c, j),
    decreases j,
{
    if j > 0 {
        lemma_face_after_lists(a, b, chars, c, j - 1);
    }
}

/// The numbers that the words behind the keyword write.
fn read_numbers(tokens: &Vec<ObjToken>) -> (r: Result<Vec<u32>, ObjFault>)
    requires
        tokens.len() >= 1,
    ensures
        match numbers(tokens@.skip(1)) {
            Some(n) => r matches Ok(out) && out@ == n,
            None => r == Err::<Vec<u32>, ObjFault>(ObjFault::Float),
        },
{
    let ghost rest = tokens@.skip(1);
    let mut out: Vec<u32> = Vec::new();
    let mut k: usize = 1;
    proof {
        assert(rest.take(0) =~= Seq::<ObjToken>::empty());
    }
    while k < tokens.len()
        invariant
            1 <= k <= tokens.len(),
            rest == tokens@.skip(1),
            numbers(rest.take(k - 1)) == Some(out@),
        decreases tokens.len() - k,
    {
        proof {
            assert(rest.take(k as int).drop_last() =~= rest.take(k - 1));
            assert(rest.take(k as int).last() == tokens@[k as int]);
        }
        match tokens[k].number {
            Some(x) => {
                out.push(x);
            },
            None => {
                proof {
                    lemma_numbers_grow(rest, k as int);
                }
                return Err(ObjFault::Float);
            },
        }
        k += 1;
    }
    proof {
        assert(rest.take(tokens.len() - 1) =~= rest);
    }
    Ok(out)
}

/// A word among the first that writes no number leaves the whole without
/// numbers.
pub proof fn lemma_numbers_grow(tokens: Seq<ObjToken>, k: int)
    requires
        0 <= k <= tokens.len(),
        numbers(tokens.take(k)) is None,
    ensures
        numbers(tokens) is None,
    decreases tokens.len() - k,
{
    if k == tokens.len() {
        assert(tokens.take(k) =~= tokens);
    } else {
        assert(tokens.take(k + 1).drop_last() =~= tokens.take(k));
        lemma_numbers_grow(tokens, k + 1);
    }
}

/// Reads the vertices of a model from the lines of the file at `path`.  A
/// fault is told with the path and the number of its line, counted from
/// one.
pub fn parse_obj_lines(lines: &Vec<ObjLine>, path: &str) -> (r: BrumousResult<Vec<ParticleVertex>>)
    ensures
        match after_lines(lines@, lines@.len() as int) {
            Ok(state) => r matches Ok(vertices) && vertices@ == state.vertices,
            Err((fault, line)) => r matches Err(error) && tells(error, fault, path@, line),
        },
{
    let mut data = ObjData::new();
    let mut n: usize = 0;
    while n < lines.len()
        invariant
            n <= lines.len(),
            after_lines(lines@, n as int) == Ok::<ObjState, (ObjFault, int)>(data@),
        decreases lines.len() - n,
    {
        match data.read_line(&lines[n]) {
            Ok(()) => {},
            Err(fault) => {
                proof {
                    lemma_lines_fault(lines@, n + 1, lines@.len() as int);
                }
                let line: usize = n + 1;
                return Err(
                    match fault {
                        ObjFault::Float => BrumousError::ParseFloat(path.to_owned(), line),
                        ObjFault::Int => BrumousError::ParseInt(path.to_owned(), line),
                        ObjFault::VertexData => BrumousError::InvalidVertexData(path.to_owned(), line),
                    },
                );
            },
        }
        n += 1;
    }
    Ok(data.vertices)
}

/// A fault among the first lines is the fault of the file.
pub proof fn lemma_lines_fault(lines: Seq<ObjLine>, n: int, k: int)
    requires
        0 <= n <= k,
        after_lines(lines, n) is Err,
    ensures
        after_lines(lines, k) == after_lines(lines, n),
    decreases k - n,
{
    if n < k {
        assert(after_lines(lines, n + 1) == after_lines(lines, n));
        lemma_lines_fault(lines, n + 1, k);
    }
}

} // verus!
