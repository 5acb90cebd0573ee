use vstd::prelude::*;

use crate::scalar::{
    all_digits, digits_value, parse_scalar, spec_parse_scalar, subvec, Scalar, Vec2S, Vec3S,
};
use crate::model_texture::{ModelTexture, TextureError, TextureImage};
use crate::raw_model::RawModel;
use crate::split::{
    split_byte, split_byte_exec, split_lines, split_lines_exec, split_ws, split_ws_exec, views,
};

verus! {

/// One interleaved vertex record, as laid out in the vertex buffer:
/// position, texture coordinate, normal.
#[derive(Clone, Copy, PartialEq, Eq, Structural, Debug)]
pub struct Vertex {
    pub position: Vec3S,
    pub tex_coords: Vec2S,
    pub normal: Vec3S,
}

/// The raster that decoding a compressed image yields: width, height and
/// RGBA pixel bytes, a function of the encoded bytes alone.
pub uninterp spec fn decoded_rgba(bytes: Seq<u8>) -> Option<(u32, u32, Seq<u8>)>;

/// Compare two byte strings.
fn bytes_equal(a: &Vec<u8>, b: &Vec<u8>) -> (r: bool)
    ensures
        r == (a@ == b@),
{
    if a.len() != b.len() {
        return false;
    }
    let mut i: usize = 0;
    while i < a.len()
        invariant
            0 <= i <= a@.len() == b@.len(),
            forall|j: int| 0 <= j < i ==> a@[j] == b@[j],
        decreases a@.len() - i,
    {
        if a[i] != b[i] {
            return false;
        }
        i += 1;
    }
    proof {
        assert(a@ =~= b@);
    }
    true
}

/// Insertion-ordered map from byte-string keys to their rank: the first key
/// ever added has rank 0, the next distinct key rank 1, and so on.  The face
/// importer uses it to give each distinct face reference a sequential slot.
pub struct StringMap {
    internal_map: Vec<Vec<u8>>,
}

impl View for StringMap {
    type V = Seq<Seq<u8>>;

    closed spec fn view(&self) -> Seq<Seq<u8>> {
        views(self.internal_map@)
    }
}

impl StringMap {
    pub fn new() -> (r: StringMap)
        ensures
            r@ == Seq::<Seq<u8>>::empty(),
    {
        let r = StringMap { internal_map: Vec::new() };
        proof {
            assert(r@ =~= Seq::<Seq<u8>>::empty());
        }
        r
    }

    /// Rank of `index`, adding it behind the existing keys when it is new.
    pub fn add(&mut self, index: &Vec<u8>) -> (r: usize)
        ensures
            r < final(self)@.len(),
            final(self)@[r as int] == index@,
            forall|j: int| 0 <= j < r ==> final(self)@[j] != index@,
            old(self)@.contains(index@) ==> final(self)@ == old(self)@ && r < old(self)@.len(),
            !old(self)@.contains(index@) ==> final(self)@ == old(self)@.push(index@) && r == old(
                self,
            )@.len(),
    {
        let n = self.internal_map.len();
        let mut i: usize = 0;
        while i < n
            invariant
                0 <= i <= n == self.internal_map@.len(),
                *self == *old(self),
                forall|j: int| 0 <= j < i ==> views(self.internal_map@)[j] != index@,
            decreases n - i,
        {
            if bytes_equal(&self.internal_map[i], index) {
                proof {
                    assert(old(self)@[i as int] == index@);
                    assert(old(self)@.contains(index@));
                }
                return i;
            }
            proof {
                assert(views(self.internal_map@)[i as int] == self.internal_map@[i as int]@);
            }
            i += 1;
        }
        let copy = subvec(index, 0, index.len());
        proof {
            assert(copy@ =~= index@);
            assert(!old(self)@.contains(index@));
        }
        self.internal_map.push(copy);
        proof {
            assert(self@ =~= old(self)@.push(index@));
        }
        n
    }

    pub fn len(&self) -> (r: usize)
        ensures
            r == self@.len(),
    {
        self.internal_map.len()
    }
}

/// Errors with which the importer rejects a malformed model file.
#[derive(Clone, Copy, PartialEq, Eq, Structural, Debug)]
pub enum ObjError {
    /// A position, texture-coordinate or normal line with too few fields, or
    /// with a field that is not a numeric token in range.
    MalformedCoordinate,
    /// A face reference with fewer than three slash-separated parts, or with
    /// a part that is not a plain number.
    MalformedFaceRef,
    /// A face reference naming a position, texture coordinate or normal that
    /// the file does not hold.
    FaceRefOutOfRange,
    /// More distinct face references than an index can address.
    TooManyVertices,
}

/// Flat model data read from a model file: positions three scalars per
/// deduplicated face reference, texture coordinates two per, normals three
/// per, and one index per face reference of the file.
pub struct ObjData {
    pub vertices: Vec<Scalar>,
    pub texture: Vec<Scalar>,
    pub normal: Vec<Scalar>,
    pub indice: Vec<u32>,
}

/// State after reading the declaration lines of a model file.
pub struct ObjAcc {
    pub verts: Seq<Vec3S>,
    pub texs: Seq<Vec2S>,
    pub norms: Seq<Vec3S>,
    pub tokens: Seq<Seq<u8>>,
}

/// State while resolving face references into flat model data.
pub struct ObjOut {
    pub vertices: Seq<Scalar>,
    pub texture: Seq<Scalar>,
    pub normal: Seq<Scalar>,
    pub indice: Seq<u32>,
    pub uniq: Seq<Seq<u8>>,
}

pub open spec fn line_is_v(line: Seq<u8>) -> bool {
    line.len() >= 2 && line[0] == 118 && line[1] == 32
}

pub open spec fn line_is_vt(line: Seq<u8>) -> bool {
    line.len() >= 2 && line[0] == 118 && line[1] == 116
}

pub open spec fn line_is_vn(line: Seq<u8>) -> bool {
    line.len() >= 2 && line[0] == 118 && line[1] == 110
}

pub open spec fn line_is_f(line: Seq<u8>) -> bool {
    line.len() >= 2 && line[0] == 102 && line[1] == 32
}

/// Fields two to four of a coordinate line, as one position or normal.
pub open spec fn parse_vec3(toks: Seq<Seq<u8>>) -> Option<Vec3S> {
    if toks.len() < 4 {
        None
    } else {
        match (spec_parse_scalar(toks[1]), spec_parse_scalar(toks[2]), spec_parse_scalar(
            toks[3],
        )) {
            (Some(x), Some(y), Some(z)) => Some(Vec3S { x, y, z }),
            _ => None,
        }
    }
}

/// Fields two and three of a texture-coordinate line.
pub open spec fn parse_vec2(toks: Seq<Seq<u8>>) -> Option<Vec2S> {
    if toks.len() < 3 {
        None
    } else {
        match (spec_parse_scalar(toks[1]), spec_parse_scalar(toks[2])) {
            (Some(x), Some(y)) => Some(Vec2S { x, y }),
            _ => None,
        }
    }
}

/// Reading one line: positions, texture coordinates and normals accumulate
/// in file order, face lines contribute their references, anything else is
/// ignored.
pub open spec fn step_a(acc: ObjAcc, line: Seq<u8>) -> Result<ObjAcc, ObjError> {
    if line.len() == 0 {
        Ok(acc)
    } else {
        let toks = split_ws(line);
        if line_is_v(line) {
            match parse_vec3(toks) {
                Some(p) => Ok(
                    ObjAcc {
                        verts: acc.verts.push(p),
                        texs: acc.texs,
                        norms: acc.norms,
                        tokens: acc.tokens,
                    },
                ),
                None => Err(ObjError::MalformedCoordinate),
            }
        } else if line_is_vt(line) {
            match parse_vec2(toks) {
                Some(t) => Ok(
                    ObjAcc {
                        verts: acc.verts,
                        texs: acc.texs.push(t),
                        norms: acc.norms,
                        tokens: acc.tokens,
                    },
                ),
                None => Err(ObjError::MalformedCoordinate),
            }
        } else if line_is_vn(line) {
            match parse_vec3(toks) {
                Some(p) => Ok(
                    ObjAcc {
                        verts: acc.verts,
                        texs: acc.texs,
                        norms: acc.norms.push(p),
                        tokens: acc.tokens,
                    },
                ),
                None => Err(ObjError::MalformedCoordinate),
            }
        } else if line_is_f(line) {
            Ok(
                ObjAcc {
                    verts: acc.verts,
                    texs: acc.texs,
                    norms: acc.norms,
                    tokens: acc.tokens + toks.skip(1),
                },
            )
        } else {
            Ok(acc)
        }
    }
}

/// Reading the declaration lines of a model file, first to last.
pub open spec fn run_a(lines: Seq<Seq<u8>>) -> Result<ObjAcc, ObjError>
    decreases lines.len(),
{
    if lines.len() == 0 {
        Ok(
            ObjAcc {
                verts: Seq::empty(),
                texs: Seq::empty(),
                norms: Seq::empty(),
                tokens: Seq::empty(),
            },
        )
    } else {
        match run_a(lines.drop_last()) {
            Err(e) => Err(e),
            Ok(acc) => step_a(acc, lines.last()),
        }
    }
}

/// A face-reference part: a plain number of at most ten digits.
pub open spec fn spec_parse_index(s: Seq<u8>) -> Option<int> {
    if s.len() == 0 || s.len() > 10 || !all_digits(s) {
        None
    } else {
        Some(digits_value(s))
    }
}

/// One face reference `a/b/c` resolved against the accumulated lists; the
/// references are one-based.
pub open spec fn resolve_ref(acc: ObjAcc, tok: Seq<u8>) -> Result<(Vec3S, Vec2S, Vec3S), ObjError> {
    let parts = split_byte(tok, 47);
    if parts.len() < 3 {
        Err(ObjError::MalformedFaceRef)
    } else {
        match (spec_parse_index(parts[0]), spec_parse_index(parts[1]), spec_parse_index(
            parts[2],
        )) {
            (Some(v), Some(t), Some(n)) => if 1 <= v <= acc.verts.len() && 1 <= t <= acc.texs.len()
                && 1 <= n <= acc.norms.len() {
                Ok((acc.verts[v - 1], acc.texs[t - 1], acc.norms[n - 1]))
            } else {
                Err(ObjError::FaceRefOutOfRange)
            },
            _ => Err(ObjError::MalformedFaceRef),
        }
    }
}

/// Rank of the first occurrence of `x` in `s`.
pub open spec fn first_index_of(s: Seq<Seq<u8>>, x: Seq<u8>) -> int
    decreases s.len(),
{
    if s.len() == 0 {
        0
    } else if s[0] == x {
        0
    } else {
        1 + first_index_of(s.skip(1), x)
    }
}

pub proof fn lemma_first_index_of(s: Seq<Seq<u8>>, x: Seq<u8>, r: int)
    requires
        0 <= r < s.len(),
        s[r] == x,
        forall|j: int| 0 <= j < r ==> s[j] != x,
    ensures
        first_index_of(s, x) == r,
    decreases r,
{
    if r > 0 {
        assert(s.skip(1)[r - 1] == s[r]);
        assert(forall|j: int| 0 <= j < r - 1 ==> s.skip(1)[j] == s[j + 1]);
        lemma_first_index_of(s.skip(1), x, r - 1);
    }
}

/// Resolving one face reference: a reference seen before reuses its rank; a
/// new one is resolved, its data appended, and the next rank assigned to it.
pub open spec fn step_b(acc: ObjAcc, st: ObjOut, tok: Seq<u8>) -> Result<ObjOut, ObjError> {
    if st.uniq.contains(tok) {
        Ok(
            ObjOut {
                vertices: st.vertices,
                texture: st.texture,
                normal: st.normal,
                indice: st.indice.push(first_index_of(st.uniq, tok) as u32),
                uniq: st.uniq,
            },
        )
    } else if st.uniq.len() >= 0x1_0000_0000 {
        Err(ObjError::TooManyVertices)
    } else {
        match resolve_ref(acc, tok) {
            Err(e) => Err(e),
            Ok((p, t, nr)) => Ok(
                ObjOut {
                    vertices: st.vertices + seq![p.x, p.y, p.z],
                    texture: st.texture + seq![t.x, t.y],
                    normal: st.normal + seq![nr.x, nr.y, nr.z],
                    indice: st.indice.push(st.uniq.len() as u32),
                    uniq: st.uniq.push(tok),
                },
            ),
        }
    }
}

/// Resolving all face references, first to last.
pub open spec fn run_b(acc: ObjAcc, toks: Seq<Seq<u8>>) -> Result<ObjOut, ObjError>
    decreases toks.len(),
{
    if toks.len() == 0 {
        Ok(
            ObjOut {
                vertices: Seq::empty(),
                texture: Seq::empty(),
                normal: Seq::empty(),
                indice: Seq::empty(),
                uniq: Seq::empty(),
            },
        )
    } else {
        match run_b(acc, toks.drop_last()) {
            Err(e) => Err(e),
            Ok(st) => step_b(acc, st, toks.last()),
        }
    }
}

/// What importing a model file yields: the file's lines are read into
/// coordinate lists and face references, and the references are resolved
/// into deduplicated flat data with one index per reference.
pub open spec fn spec_load_obj(s: Seq<u8>) -> Result<ObjOut, ObjError> {
    match run_a(split_lines(s)) {
        Err(e) => Err(e),
        Ok(acc) => run_b(acc, acc.tokens),
    }
}

/// Importing a model file is a function of its bytes alone: two sources
/// with equal bytes import to equal results, so re-importing the same file
/// yields identical vertex and index data.
pub proof fn lemma_import_deterministic(s1: Seq<u8>, s2: Seq<u8>)
    requires
        s1 == s2,
    ensures
        spec_load_obj(s1) == spec_load_obj(s2),
{
}

/// A model file whose well-formed declaration lines contribute no face
/// reference imports to empty vertex and index data, not to an error.
pub proof fn lemma_no_faces_empty(s: Seq<u8>)
    requires
        run_a(split_lines(s)) is Ok,
        (run_a(split_lines(s)) ->Ok_0).tokens.len() == 0,
    ensures
        spec_load_obj(s) is Ok,
        (spec_load_obj(s) ->Ok_0).vertices.len() == 0,
        (spec_load_obj(s) ->Ok_0).texture.len() == 0,
        (spec_load_obj(s) ->Ok_0).normal.len() == 0,
        (spec_load_obj(s) ->Ok_0).indice.len() == 0,
{
    let acc = run_a(split_lines(s))->Ok_0;
    assert(acc.tokens =~= Seq::<Seq<u8>>::empty());
}

proof fn lemma_run_a_err(lines: Seq<Seq<u8>>, i: int)
    requires
        0 <= i <= lines.len(),
        run_a(lines.take(i)) is Err,
    ensures
        run_a(lines) == run_a(lines.take(i)),
    decreases lines.len() - i,
{
    if i < lines.len() {
        assert(lines.take(i + 1).drop_last() =~= lines.take(i));
        lemma_run_a_err(lines, i + 1);
    } else {
        assert(lines.take(i) =~= lines);
    }
}

proof fn lemma_run_b_err(acc: ObjAcc, toks: Seq<Seq<u8>>, i: int)
    requires
        0 <= i <= toks.len(),
        run_b(acc, toks.take(i)) is Err,
    ensures
        run_b(acc, toks) == run_b(acc, toks.take(i)),
    decreases toks.len() - i,
{
    if i < toks.len() {
        assert(toks.take(i + 1).drop_last() =~= toks.take(i));
        lemma_run_b_err(acc, toks, i + 1);
    } else {
        assert(toks.take(i) =~= toks);
    }
}

fn parse_vec3_exec(toks: &Vec<Vec<u8>>) -> (r: Option<Vec3S>)
    ensures
        r == parse_vec3(views(toks@)),
{
    if toks.len() < 4 {
        return None;
    }
    proof {
        assert(views(toks@)[1] == toks@[1]@);
        assert(views(toks@)[2] == toks@[2]@);
        assert(views(toks@)[3] == toks@[3]@);
    }
    let x = parse_scalar(&toks[1]);
    let y = parse_scalar(&toks[2]);
    let z = parse_scalar(&toks[3]);
    match (x, y, z) {
        (Some(x), Some(y), Some(z)) => Some(Vec3S { x, y, z }),
        _ => None,
    }
}

fn parse_vec2_exec(toks: &Vec<Vec<u8>>) -> (r: Option<Vec2S>)
    ensures
        r == parse_vec2(views(toks@)),
{
    if toks.len() < 3 {
        return None;
    }
    proof {
        assert(views(toks@)[1] == toks@[1]@);
        assert(views(toks@)[2] == toks@[2]@);
    }
    let x = parse_scalar(&toks[1]);
    let y = parse_scalar(&toks[2]);
    match (x, y) {
        (Some(x), Some(y)) => Some(Vec2S { x, y }),
        _ => None,
    }
}

fn parse_index_exec(s: &Vec<u8>) -> (r: Option<u64>)
    ensures
        match r {
            Some(x) => spec_parse_index(s@) == Some(x as int),
            None => spec_parse_index(s@) is None,
        },
{
    if s.len() == 0 || s.len() > 10 {
        return None;
    }
    match crate::scalar::digits_of(s) {
        Some(x) => Some(x),
        None => None,
    }
}

/// Loads model data and textures, and owns the identity counter with which
/// each loaded texture is tagged.
pub struct Loader {
    texture_counter: u32,
}

impl Loader {
    /// The identity that the most recently loaded texture received; zero
    /// before any texture was loaded.
    pub closed spec fn counter(&self) -> u32 {
        self.texture_counter
    }

    pub fn new() -> (r: Loader)
        ensures
            r.counter() == 0,
    {
        Loader { texture_counter: 0 }
    }

    /// How many textures this loader has handed out so far.
    pub fn texture_count(&self) -> (r: u32)
        ensures
            r == self.counter(),
    {
        self.texture_counter
    }

    /// Import a Wavefront-style model file given as its bytes.
    ///
    /// The result is exactly `spec_load_obj` of the input: positions,
    /// texture coordinates and normals are collected in file order, then
    /// every face reference yields exactly one index, with distinct
    /// references resolved once each in first-seen order, so a shared corner
    /// collapses to one slot.  Importing the same bytes twice therefore
    /// yields the same data.
    pub fn load_obj_file(source: &Vec<u8>) -> (r: Result<ObjData, ObjError>)
        ensures
            r matches Ok(d) ==> spec_load_obj(source@) matches Ok(m) && d.vertices@ == m.vertices
                && d.texture@ == m.texture && d.normal@ == m.normal && d.indice@ == m.indice
                && d.vertices@.len() == 3 * m.uniq.len() && d.texture@.len() == 2 * m.uniq.len()
                && d.normal@.len() == 3 * m.uniq.len() && m.uniq.len() <= 0x1_0000_0000 && (
            forall|i: int| 0 <= i < d.indice@.len() ==> (d.indice@[i] as int) < m.uniq.len()),
            r matches Ok(d) ==> run_a(split_lines(source@)) matches Ok(acc) && d.indice@.len()
                == acc.tokens.len(),
            r matches Err(e) ==> spec_load_obj(source@) == Err::<ObjOut, ObjError>(e),
    {
        let lines = split_lines_exec(source);
        let mut verts: Vec<Vec3S> = Vec::new();
        let mut texs: Vec<Vec2S> = Vec::new();
        let mut norms: Vec<Vec3S> = Vec::new();
        let mut face_tokens: Vec<Vec<u8>> = Vec::new();
        proof {
            assert(views(lines@).take(0) =~= Seq::<Seq<u8>>::empty());
            assert(views(face_tokens@) =~= Seq::<Seq<u8>>::empty());
        }
        let nlines = lines.len();
        let mut li: usize = 0;
        while li < nlines
            invariant
                0 <= li <= nlines == lines@.len(),
                views(lines@) == split_lines(source@),
                run_a(views(lines@).take(li as int)) == Ok::<ObjAcc, ObjError>(
                    ObjAcc {
                        verts: verts@,
                        texs: texs@,
                        norms: norms@,
                        tokens: views(face_tokens@),
                    },
                ),
            decreases nlines - li,
        {
            let ghost prev = ObjAcc {
                verts: verts@,
                texs: texs@,
                norms: norms@,
                tokens: views(face_tokens@),
            };
            proof {
                assert(views(lines@).take(li + 1).drop_last() =~= views(lines@).take(li as int));
                assert(views(lines@).take(li + 1).last() == views(lines@)[li as int]);
                assert(views(lines@)[li as int] == lines@[li as int]@);
            }
            let line = &lines[li];
            if line.len() == 0 {
                proof {
                    assert(step_a(prev, line@) == Ok::<ObjAcc, ObjError>(prev));
                }
            } else {
                let toks = split_ws_exec(line);
                let is_v = line.len() >= 2 && line[0] == 118 && line[1] == 32;
                let is_vt = line.len() >= 2 && line[0] == 118 && line[1] == 116;
                let is_vn = line.len() >= 2 && line[0] == 118 && line[1] == 110;
                let is_f = line.len() >= 2 && line[0] == 102 && line[1] == 32;
                if is_v {
                    match parse_vec3_exec(&toks) {
                        Some(p) => {
                            verts.push(p);
                        },
                        None => {
                            proof {
                                assert(run_a(views(lines@).take(li + 1)) == Err::<
                                    ObjAcc,
                                    ObjError,
                                >(ObjError::MalformedCoordinate));
                                lemma_run_a_err(views(lines@), li + 1);
                            }
                            return Err(ObjError::MalformedCoordinate);
                        },
                    }
                } else if is_vt {
                    match parse_vec2_exec(&toks) {
                        Some(t) => {
                            texs.push(t);
                        },
                        None => {
                            proof {
                                assert(run_a(views(lines@).take(li + 1)) == Err::<
                                    ObjAcc,
                                    ObjError,
                                >(ObjError::MalformedCoordinate));
                                lemma_run_a_err(views(lines@), li + 1);
                            }
                            return Err(ObjError::MalformedCoordinate);
                        },
                    }
                } else if is_vn {
                    match parse_vec3_exec(&toks) {
                        Some(p) => {
                            norms.push(p);
                        },
                        None => {
                            proof {
                                assert(run_a(views(lines@).take(li + 1)) == Err::<
                                    ObjAcc,
                                    ObjError,
                                >(ObjError::MalformedCoordinate));
                                lemma_run_a_err(views(lines@), li + 1);
                            }
                            return Err(ObjError::MalformedCoordinate);
                        },
                    }
                } else if is_f {
                    proof {
                        assert(!crate::split::is_ws(line@[0]));
                        assert(views(toks@).len() >= 1);
                    }
                    let ghost base = views(face_tokens@);
                    proof {
                        assert(views(face_tokens@) =~= base + views(toks@).subrange(1, 1));
                    }
                    let ntoks = toks.len();
                    let mut k: usize = 1;
                    while k < ntoks
                        invariant
                            1 <= k <= ntoks == toks@.len(),
                            views(face_tokens@) == base + views(toks@).subrange(1, k as int),
                        decreases ntoks - k,
                    {
                        let t = &toks[k];
                        let copy = subvec(t, 0, t.len());
                        proof {
                            assert(copy@ =~= toks@[k as int]@);
                            assert(copy@ == views(toks@)[k as int]);
                            crate::split::lemma_views_push(face_tokens@, copy);
                        }
                        face_tokens.push(copy);
                        proof {
                            assert(views(face_tokens@) =~= base + views(toks@).subrange(
                                1,
                                k + 1,
                            ));
                        }
                        k += 1;
                    }
                    proof {
                        assert(views(toks@).subrange(1, toks@.len() as int) =~= views(
                            toks@,
                        ).skip(1));
                    }
                } else {
                    proof {
                        assert(step_a(prev, line@) == Ok::<ObjAcc, ObjError>(prev));
                    }
                }
            }
            proof {
                assert(run_a(views(lines@).take(li + 1)) == Ok::<ObjAcc, ObjError>(
                    ObjAcc {
                        verts: verts@,
                        texs: texs@,
                        norms: norms@,
                        tokens: views(face_tokens@),
                    },
                ));
            }
            li += 1;
        }
        proof {
            assert(views(lines@).take(nlines as int) =~= views(lines@));
        }
        let ghost acc = ObjAcc {
            verts: verts@,
            texs: texs@,
            norms: norms@,
            tokens: views(face_tokens@),
        };
        let mut my_map = StringMap::new();
        let mut data = ObjData {
            vertices: Vec::new(),
            texture: Vec::new(),
            normal: Vec::new(),
            indice: Vec::new(),
        };
        proof {
            assert(acc.tokens.take(0) =~= Seq::<Seq<u8>>::empty());
        }
        let nfts = face_tokens.len();
        let mut ti: usize = 0;
        while ti < nfts
            invariant
                0 <= ti <= nfts == face_tokens@.len(),
                run_a(split_lines(source@)) == Ok::<ObjAcc, ObjError>(acc),
                verts@ == acc.verts,
                texs@ == acc.texs,
                norms@ == acc.norms,
                views(face_tokens@) == acc.tokens,
                run_b(acc, acc.tokens.take(ti as int)) == Ok::<ObjOut, ObjError>(
                    ObjOut {
                        vertices: data.vertices@,
                        texture: data.texture@,
                        normal: data.normal@,
                        indice: data.indice@,
                        uniq: my_map@,
                    },
                ),
                data.indice@.len() == ti,
                data.vertices@.len() == 3 * my_map@.len(),
                data.texture@.len() == 2 * my_map@.len(),
                data.normal@.len() == 3 * my_map@.len(),
                forall|i: int|
                    0 <= i < data.indice@.len() ==> (#[trigger] data.indice@[i] as int)
                        < my_map@.len(),
                my_map@.len() <= 0x1_0000_0000,
            decreases nfts - ti,
        {
            let ghost stv = ObjOut {
                vertices: data.vertices@,
                texture: data.texture@,
                normal: data.normal@,
                indice: data.indice@,
                uniq: my_map@,
            };
            proof {
                assert(acc.tokens.take(ti + 1).drop_last() =~= acc.tokens.take(ti as int));
                assert(acc.tokens.take(ti + 1).last() == acc.tokens[ti as int]);
                assert(acc.tokens[ti as int] == face_tokens@[ti as int]@);
            }
            let tok = &face_tokens[ti];
            let prior = my_map.len();
            let idx = my_map.add(tok);
            if idx < prior {
                proof {
                    assert(stv.uniq.contains(tok@));
                    lemma_first_index_of(stv.uniq, tok@, idx as int);
                }
                data.indice.push(idx as u32);
                proof {
                    assert(run_b(acc, acc.tokens.take(ti + 1)) == Ok::<ObjOut, ObjError>(
                        ObjOut {
                            vertices: data.vertices@,
                            texture: data.texture@,
                            normal: data.normal@,
                            indice: data.indice@,
                            uniq: my_map@,
                        },
                    ));
                }
            } else {
                proof {
                    assert(!stv.uniq.contains(tok@));
                }
                if (prior as u64) >= 0x1_0000_0000u64 {
                    proof {
                        assert(run_b(acc, acc.tokens.take(ti + 1)) == Err::<ObjOut, ObjError>(
                            ObjError::TooManyVertices,
                        ));
                        lemma_run_b_err(acc, acc.tokens, ti + 1);
                    }
                    return Err(ObjError::TooManyVertices);
                }
                let parts = split_byte_exec(tok, 47);
                if parts.len() < 3 {
                    proof {
                        assert(run_b(acc, acc.tokens.take(ti + 1)) == Err::<ObjOut, ObjError>(
                            ObjError::MalformedFaceRef,
                        ));
                        lemma_run_b_err(acc, acc.tokens, ti + 1);
                    }
                    return Err(ObjError::MalformedFaceRef);
                }
                proof {
                    assert(views(parts@)[0] == parts@[0]@);
                    assert(views(parts@)[1] == parts@[1]@);
                    assert(views(parts@)[2] == parts@[2]@);
                }
                let vi = parse_index_exec(&parts[0]);
                let tci = parse_index_exec(&parts[1]);
                let ni = parse_index_exec(&parts[2]);
                match (vi, tci, ni) {
                    (Some(v), Some(t), Some(n)) => {
                        if v >= 1 && v <= verts.len() as u64 && t >= 1 && t <= texs.len() as u64
                            && n >= 1 && n <= norms.len() as u64 {
                            let p = verts[(v - 1) as usize];
                            let tc = texs[(t - 1) as usize];
                            let nr = norms[(n - 1) as usize];
                            data.vertices.push(p.x);
                            data.vertices.push(p.y);
                            data.vertices.push(p.z);
                            data.texture.push(tc.x);
                            data.texture.push(tc.y);
                            data.normal.push(nr.x);
                            data.normal.push(nr.y);
                            data.normal.push(nr.z);
                            data.indice.push(prior as u32);
                            proof {
                                assert(resolve_ref(acc, tok@) == Ok::<
                                    (Vec3S, Vec2S, Vec3S),
                                    ObjError,
                                >((p, tc, nr)));
                                assert(data.vertices@ =~= stv.vertices + seq![p.x, p.y, p.z]);
                                assert(data.texture@ =~= stv.texture + seq![tc.x, tc.y]);
                                assert(data.normal@ =~= stv.normal + seq![nr.x, nr.y, nr.z]);
                                assert(run_b(acc, acc.tokens.take(ti + 1)) == Ok::<
                                    ObjOut,
                                    ObjError,
                                >(
                                    ObjOut {
                                        vertices: data.vertices@,
                                        texture: data.texture@,
                                        normal: data.normal@,
                                        indice: data.indice@,
                                        uniq: my_map@,
                                    },
                                ));
                            }
                        } else {
                            proof {
                                assert(run_b(acc, acc.tokens.take(ti + 1)) == Err::<
                                    ObjOut,
                                    ObjError,
                                >(ObjError::FaceRefOutOfRange));
                                lemma_run_b_err(acc, acc.tokens, ti + 1);
                            }
                            return Err(ObjError::FaceRefOutOfRange);
                        }
                    },
                    _ => {
                        proof {
                            assert(run_b(acc, acc.tokens.take(ti + 1)) == Err::<ObjOut, ObjError>(
                                ObjError::MalformedFaceRef,
                            ));
                            lemma_run_b_err(acc, acc.tokens, ti + 1);
                        }
                        return Err(ObjError::MalformedFaceRef);
                    },
                }
            }
            ti += 1;
        }
        proof {
            assert(acc.tokens.take(nfts as int) =~= acc.tokens);
        }
        Ok(data)
    }

    /// Interleave flat imported data into vertex records and 16-bit indices,
    /// rejecting data whose slots an index cannot address.
    pub fn load_3d_model(&self, data: &ObjData) -> (r: Result<
        (Vec<Vertex>, Vec<u16>, RawModel),
        ObjError,
    >)
        requires
            data.vertices@.len() % 3 == 0,
            data.texture@.len() * 3 == data.vertices@.len() * 2,
            data.normal@.len() == data.vertices@.len(),
        ensures
            r is Ok <==> (forall|i: int|
                0 <= i < data.indice@.len() ==> #[trigger] data.indice@[i] <= u16::MAX)
                && data.vertices@.len() / 3 <= u32::MAX && data.indice@.len() <= u32::MAX,
            r is Err ==> r == Err::<(Vec<Vertex>, Vec<u16>, RawModel), ObjError>(
                ObjError::TooManyVertices,
            ),
            r matches Ok((vs, is, rm)) ==> vs@.len() == data.vertices@.len() / 3 && (forall|i: int|
                0 <= i < vs@.len() ==> #[trigger] vs@[i] == (Vertex {
                    position: Vec3S {
                        x: data.vertices@[3 * i],
                        y: data.vertices@[3 * i + 1],
                        z: data.vertices@[3 * i + 2],
                    },
                    tex_coords: Vec2S { x: data.texture@[2 * i], y: data.texture@[2 * i + 1] },
                    normal: Vec3S {
                        x: data.normal@[3 * i],
                        y: data.normal@[3 * i + 1],
                        z: data.normal@[3 * i + 2],
                    },
                })) && is@.len() == data.indice@.len() && (forall|i: int|
                0 <= i < is@.len() ==> #[trigger] is@[i] == data.indice@[i] as u16) && rm
                == (RawModel { num_vertices: vs@.len() as u32, num_indices: is@.len() as u32 }),
    {
        let num_vertices = data.vertices.len() / 3;
        if num_vertices > u32::MAX as usize || data.indice.len() > u32::MAX as usize {
            return Err(ObjError::TooManyVertices);
        }
        let mut vertices: Vec<Vertex> = Vec::new();
        let mut i: usize = 0;
        while i < num_vertices
            invariant
                0 <= i <= num_vertices,
                num_vertices == data.vertices@.len() / 3,
                data.vertices@.len() <= usize::MAX,
                data.vertices@.len() % 3 == 0,
                data.texture@.len() * 3 == data.vertices@.len() * 2,
                data.normal@.len() == data.vertices@.len(),
                vertices@.len() == i,
                forall|j: int|
                    0 <= j < i ==> #[trigger] vertices@[j] == (Vertex {
                        position: Vec3S {
                            x: data.vertices@[3 * j],
                            y: data.vertices@[3 * j + 1],
                            z: data.vertices@[3 * j + 2],
                        },
                        tex_coords: Vec2S {
                            x: data.texture@[2 * j],
                            y: data.texture@[2 * j + 1],
                        },
                        normal: Vec3S {
                            x: data.normal@[3 * j],
                            y: data.normal@[3 * j + 1],
                            z: data.normal@[3 * j + 2],
                        },
                    }),
            decreases num_vertices - i,
        {
            proof {
                vstd::arithmetic::div_mod::lemma_fundamental_div_mod(
                    data.vertices@.len() as int,
                    3,
                );
                assert(3 * i + 2 < data.vertices@.len());
            }
            let v = Vertex {
                position: Vec3S {
                    x: data.vertices[3 * i],
                    y: data.vertices[3 * i + 1],
                    z: data.vertices[3 * i + 2],
                },
                tex_coords: Vec2S { x: data.texture[2 * i], y: data.texture[2 * i + 1] },
                normal: Vec3S {
                    x: data.normal[3 * i],
                    y: data.normal[3 * i + 1],
                    z: data.normal[3 * i + 2],
                },
            };
            vertices.push(v);
            i += 1;
        }
        let mut indices: Vec<u16> = Vec::new();
        let mut k: usize = 0;
        while k < data.indice.len()
            invariant
                0 <= k <= data.indice@.len(),
                indices@.len() == k,
                forall|j: int| 0 <= j < k ==> #[trigger] data.indice@[j] <= u16::MAX,
                forall|j: int| 0 <= j < k ==> #[trigger] indices@[j] == data.indice@[j] as u16,
            decreases data.indice@.len() - k,
        {
            let ix = data.indice[k];
            if ix > u16::MAX as u32 {
                return Err(ObjError::TooManyVertices);
            }
            indices.push(ix as u16);
            k += 1;
        }
        let model = RawModel {
            num_vertices: num_vertices as u32,
            num_indices: indices.len() as u32,
        };
        Ok((vertices, indices, model))
    }

    /// The built-in fallback mesh: a small fan of three triangles with plain
    /// texture coordinates, for demos without asset files.
    pub fn triangle(&self) -> (r: (Vec<Vertex>, Vec<u16>, RawModel))
        ensures
            r.0@ == spec_triangle_vertices(),
            r.1@ == seq![0u16, 1u16, 2u16, 3u16, 4u16, 5u16, 6u16, 7u16, 8u16],
            r.2 == (RawModel { num_vertices: 9, num_indices: 9 }),
    {
        let mut vertices: Vec<Vertex> = Vec::new();
        vertices.push(tri_vertex(-86824100, 492403860, 500000000, 0));
        vertices.push(tri_vertex(-495134060, 69586470, 0, 400000000));
        vertices.push(tri_vertex(441473720, 234735900, 1000000000, 400000000));
        vertices.push(tri_vertex(-495134060, 69586470, 0, 400000000));
        vertices.push(tri_vertex(-219185490, -449397060, 200000000, 1000000000));
        vertices.push(tri_vertex(441473720, 234735900, 1000000000, 400000000));
        vertices.push(tri_vertex(-219185490, -449397060, 200000000, 1000000000));
        vertices.push(tri_vertex(359669980, -347329100, 800000000, 1000000000));
        vertices.push(tri_vertex(441473720, 234735900, 1000000000, 400000000));
        let mut indices: Vec<u16> = Vec::new();
        let mut k: u16 = 0;
        while k < 9
            invariant
                0 <= k <= 9,
                indices@.len() == k,
                forall|j: int| 0 <= j < k ==> #[trigger] indices@[j] == j as u16,
            decreases 9 - k,
        {
            indices.push(k);
            k += 1;
        }
        let model = RawModel { num_vertices: 9, num_indices: 9 };
        proof {
            assert(vertices@ =~= spec_triangle_vertices());
            assert(indices@ =~= seq![0u16, 1u16, 2u16, 3u16, 4u16, 5u16, 6u16, 7u16, 8u16]);
        }
        (vertices, indices, model)
    }

    /// Decode image bytes and stage them as a texture resource carrying the
    /// next sequential identity; shading parameters take their defaults.
    /// Identities therefore count up from one and are never reused within
    /// one loader.
    pub fn load_texture(&mut self, bytes: &Vec<u8>) -> (r: Result<
        (ModelTexture, TextureImage),
        TextureError,
    >)
        requires
            old(self).counter() < u32::MAX,
        ensures
            r is Ok <==> decoded_rgba(bytes@) is Some,
            r matches Ok((t, img)) ==> t.id == old(self).counter() + 1 && final(self).counter()
                == old(self).counter() + 1 && t.shine_damper.nanos == crate::scalar::NANOS_PER_UNIT
                && t.reflectivity.nanos == 0 && t.number_of_rows == 1 && decoded_rgba(bytes@)
                == Some((img.width, img.height, img.pixels@)) && img.pixels@.len() == 4 * (
            img.width as nat) * (img.height as nat),
            r is Err ==> final(self).counter() == old(self).counter() && r == Err::<
                (ModelTexture, TextureImage),
                TextureError,
            >(TextureError::DecodeFailed),
    {
        match decode_rgba(bytes) {
            None => Err(TextureError::DecodeFailed),
            Some(img) => {
                self.texture_counter = self.texture_counter + 1;
                Ok((ModelTexture::new(self.texture_counter), img))
            },
        }
    }
}

fn tri_vertex(px: i64, py: i64, tx: i64, ty: i64) -> (r: Vertex)
    ensures
        r == spec_tri_vertex(px, py, tx, ty),
{
    Vertex {
        position: Vec3S {
            x: Scalar::from_nanos(px),
            y: Scalar::from_nanos(py),
            z: Scalar::zero(),
        },
        tex_coords: Vec2S { x: Scalar::from_nanos(tx), y: Scalar::from_nanos(ty) },
        normal: Vec3S { x: Scalar::one(), y: Scalar::one(), z: Scalar::one() },
    }
}

/// A fallback-mesh vertex at the given position and texture coordinate, in
/// the plane and lit straight on.
pub open spec fn spec_tri_vertex(px: i64, py: i64, tx: i64, ty: i64) -> Vertex {
    Vertex {
        position: Vec3S {
            x: Scalar { nanos: px },
            y: Scalar { nanos: py },
            z: Scalar { nanos: 0 },
        },
        tex_coords: Vec2S { x: Scalar { nanos: tx }, y: Scalar { nanos: ty } },
        normal: Vec3S {
            x: Scalar { nanos: 1_000_000_000 },
            y: Scalar { nanos: 1_000_000_000 },
            z: Scalar { nanos: 1_000_000_000 },
        },
    }
}

/// The vertices of the built-in fallback mesh.
pub open spec fn spec_triangle_vertices() -> Seq<Vertex> {
    seq![
        spec_tri_vertex(-86824100i64, 492403860i64, 500000000i64, 0i64),
        spec_tri_vertex(-495134060i64, 69586470i64, 0i64, 400000000i64),
        spec_tri_vertex(441473720i64, 234735900i64, 1000000000i64, 400000000i64),
        spec_tri_vertex(-495134060i64, 69586470i64, 0i64, 400000000i64),
        spec_tri_vertex(-219185490i64, -449397060i64, 200000000i64, 1000000000i64),
        spec_tri_vertex(441473720i64, 234735900i64, 1000000000i64, 400000000i64),
        spec_tri_vertex(-219185490i64, -449397060i64, 200000000i64, 1000000000i64),
        spec_tri_vertex(359669980i64, -347329100i64, 800000000i64, 1000000000i64),
        spec_tri_vertex(441473720i64, 234735900i64, 1000000000i64, 400000000i64),
    ]
}

/// Relies on image::load_from_memory and image::DynamicImage::to_rgba8: the
/// decoded raster depends on the encoded bytes alone, and an RGBA image
/// buffer holds four bytes for each of width times height pixels.
#[verifier::external_body]
fn decode_rgba(bytes: &Vec<u8>) -> (r: Option<TextureImage>)
    ensures
        match r {
            Some(img) => decoded_rgba(bytes@) == Some((img.width, img.height, img.pixels@))
                && img.pixels@.len() == 4 * (img.width as nat) * (img.height as nat),
            None => decoded_rgba(bytes@) is None,
        },
{
    match image::load_from_memory(bytes.as_slice()) {
        Ok(img) => {
            let rgba = img.to_rgba8();
            let width = rgba.width();
            let height = rgba.height();
            Some(TextureImage { width, height, pixels: rgba.into_raw() })
        },
        Err(_) => None,
    }
}

} // verus!
