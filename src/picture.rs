//! The column-based picture format: a header, a table of column offsets and,
//! for each column, a run of posts closed by a `0xFF` byte.
use crate::bytes::{le_i16, le_u32, read_i16_at, read_u32_at};
use crate::error::WadError;
use vstd::prelude::*;

verus! {

/// Byte that stands in the `top_delta` position at the end of a column.
pub const COLUMN_END: u8 = 0xFF;

/// Size of the picture header in bytes.
pub const HEADER_BYTES: usize = 8;

/// The fixed-size header at the start of a picture lump.
#[derive(Debug, Clone, Copy, PartialEq, Eq, Structural)]
pub struct PictureHeader {
    pub width: i16,
    pub height: i16,
    pub left_offset: i16,
    pub top_offset: i16,
}

/// One vertical run of opaque pixels in a column.
pub struct Post {
    /// Row of the first pixel of the run.
    pub top_delta: u8,
    /// Number of pixels in the run.
    pub length: u8,
    /// One palette index per pixel, top to bottom.
    pub data: Vec<u8>,
}

/// A post as a pair of its first row and its colour indices.
pub type PostModel = (u8, Seq<u8>);

impl View for Post {
    type V = PostModel;

    open spec fn view(&self) -> PostModel {
        (self.top_delta, self.data@)
    }
}

impl Post {
    /// The stored length agrees with the data.
    pub open spec fn wf(&self) -> bool {
        self.length as int == self.data@.len()
    }
}

/// The posts of one column, in the order in which they are stored.
pub struct Column {
    pub posts: Vec<Post>,
}

/// The models of a sequence of posts.
pub open spec fn posts_model(s: Seq<Post>) -> Seq<PostModel> {
    s.map_values(|p: Post| p@)
}

/// Width stated in the header of picture lump `b`.
pub open spec fn picture_width(b: Seq<u8>) -> int {
    le_i16(b, 0)
}

/// Height stated in the header of picture lump `b`.
pub open spec fn picture_height(b: Seq<u8>) -> int {
    le_i16(b, 2)
}

/// Offset of column `x`, read from the table that follows the header.
pub open spec fn column_offset(b: Seq<u8>, x: int) -> int {
    le_u32(b, HEADER_BYTES + 4 * x)
}

/// The post whose first byte is at `pos`: `top_delta`, `length`, a padding
/// byte, `length` colour indices and another padding byte.
pub open spec fn post_at(b: Seq<u8>, pos: int) -> PostModel {
    (b[pos], b.subrange(pos + 3, pos + 3 + b[pos + 1] as int))
}

/// Position just past the post whose first byte is at `pos`.
pub open spec fn post_end(b: Seq<u8>, pos: int) -> int {
    pos + 4 + b[pos + 1] as int
}

/// The posts of the column that starts at `pos`, or `None` where the bytes end
/// before the column's closing `0xFF`.
pub open spec fn column_posts(b: Seq<u8>, pos: int) -> Option<Seq<PostModel>>
    decreases b.len() - pos,
{
    if pos < 0 || pos >= b.len() {
        None
    } else if b[pos] == COLUMN_END {
        Some(Seq::empty())
    } else if pos + 4 > b.len() || post_end(b, pos) > b.len() {
        None
    } else {
        match column_posts(b, post_end(b, pos)) {
            Some(rest) => Some(seq![post_at(b, pos)] + rest),
            None => None,
        }
    }
}

/// A post lies within a picture of height `h` and uses colours of a palette of
/// `n` entries only.
pub open spec fn post_fits(p: PostModel, h: int, n: int) -> bool {
    &&& p.0 + p.1.len() <= h
    &&& forall|i: int| 0 <= i < p.1.len() ==> (#[trigger] p.1[i]) < n
}

/// Every post of a column fits.
pub open spec fn column_fits(ps: Seq<PostModel>, h: int, n: int) -> bool {
    forall|k: int| 0 <= k < ps.len() ==> post_fits(#[trigger] ps[k], h, n)
}

/// The header, the offset table and every column of `b` can be read.
pub open spec fn picture_layout_ok(b: Seq<u8>) -> bool {
    &&& b.len() >= HEADER_BYTES
    &&& picture_width(b) >= 0
    &&& picture_height(b) >= 0
    &&& HEADER_BYTES + 4 * picture_width(b) <= b.len()
    &&& forall|x: int|
        0 <= x < picture_width(b) ==> (#[trigger] column_posts(b, column_offset(b, x))) is Some
}

/// `b` decodes to a picture against a palette of `n` colours.
pub open spec fn picture_decodes(b: Seq<u8>, n: int) -> bool {
    &&& picture_layout_ok(b)
    &&& forall|x: int|
        0 <= x < picture_width(b) ==> column_fits(
            (#[trigger] column_posts(b, column_offset(b, x)))->Some_0,
            picture_height(b),
            n,
        )
}

/// The colour of row `y` in a column with posts `ps`: that of the last post
/// covering the row, or `None` where no post covers it.
pub open spec fn column_pixel(ps: Seq<PostModel>, y: int, pal: Seq<[u8; 3]>) -> Option<[u8; 3]>
    decreases ps.len(),
{
    if ps.len() == 0 {
        None
    } else {
        let p = ps.last();
        if p.0 <= y < p.0 + p.1.len() {
            Some(pal[p.1[y - p.0] as int])
        } else {
            column_pixel(ps.drop_last(), y, pal)
        }
    }
}

/// The colour of pixel `(x, y)` of the picture `b` drawn with palette `pal`.
pub open spec fn picture_pixel(b: Seq<u8>, pal: Seq<[u8; 3]>, x: int, y: int) -> Option<[u8; 3]> {
    column_pixel(column_posts(b, column_offset(b, x))->Some_0, y, pal)
}

/// Reads the picture header at the start of `data`.
pub fn decode_picture_header(data: &Vec<u8>) -> (r: Result<PictureHeader, WadError>)
    ensures
        data@.len() < HEADER_BYTES ==> r == Err::<PictureHeader, WadError>(WadError::FormatError),
        data@.len() >= HEADER_BYTES ==> r is Ok && {
            let h = r->Ok_0;
            &&& h.width as int == le_i16(data@, 0)
            &&& h.height as int == le_i16(data@, 2)
            &&& h.left_offset as int == le_i16(data@, 4)
            &&& h.top_offset as int == le_i16(data@, 6)
        },
{
    if data.len() < HEADER_BYTES {
        return Err(WadError::FormatError);
    }
    let width = read_i16_at(data.as_slice(), 0);
    let height = read_i16_at(data.as_slice(), 2);
    let left_offset = read_i16_at(data.as_slice(), 4);
    let top_offset = read_i16_at(data.as_slice(), 6);
    Ok(PictureHeader { width, height, left_offset, top_offset })
}

/// Reads the post that starts at `*pos` and moves `*pos` past it. At the
/// column's closing `0xFF` it returns `None` and moves past that byte.
pub fn decode_post(data: &Vec<u8>, pos: &mut usize) -> (r: Result<Option<Post>, WadError>)
    ensures
        ({
            let b = data@;
            let p = *old(pos) as int;
            if p >= b.len() {
                r == Err::<Option<Post>, WadError>(WadError::FormatError)
            } else if b[p] == COLUMN_END {
                r == Ok::<Option<Post>, WadError>(None) && *final(pos) as int == p + 1
            } else if p + 4 > b.len() || post_end(b, p) > b.len() {
                r == Err::<Option<Post>, WadError>(WadError::FormatError)
            } else {
                &&& r matches Ok(Some(post))
                &&& post.wf()
                &&& post@ == post_at(b, p)
                &&& *final(pos) as int == post_end(b, p)
            }
        }),
{
    let p = *pos;
    if p >= data.len() {
        return Err(WadError::FormatError);
    }
    let top_delta = data[p];
    if top_delta == COLUMN_END {
        *pos = p + 1;
        return Ok(None);
    }
    if data.len() - p < 4 {
        return Err(WadError::FormatError);
    }
    let length = data[p + 1];
    if data.len() - p - 4 < length as usize {
        return Err(WadError::FormatError);
    }
    let start = p + 3;
    let end = start + length as usize;
    let mut post_data: Vec<u8> = Vec::new();
    let mut i: usize = start;
    while i < end
        invariant
            start <= i <= end,
            end <= data@.len(),
            post_data@ == data@.subrange(start as int, i as int),
        decreases end - i,
    {
        post_data.push(data[i]);
        i = i + 1;
        assert(post_data@ =~= data@.subrange(start as int, i as int));
    }
    *pos = end + 1;
    Ok(Some(Post { top_delta, length, data: post_data }))
}

/// Reads the column whose first post starts at `pos`, up to its closing `0xFF`.
pub fn decode_column(data: &Vec<u8>, pos: usize) -> (r: Result<Column, WadError>)
    ensures
        match column_posts(data@, pos as int) {
            None => r == Err::<Column, WadError>(WadError::FormatError),
            Some(ps) => r matches Ok(c) && posts_model(c.posts@) == ps && forall|k: int|
                0 <= k < c.posts@.len() ==> (#[trigger] c.posts@[k]).wf(),
        },
{
    let mut posts: Vec<Post> = Vec::new();
    let mut cur: usize = pos;
    loop
        invariant
            match column_posts(data@, cur as int) {
                None => column_posts(data@, pos as int) is None,
                Some(rest) => column_posts(data@, pos as int) == Some(
                    posts_model(posts@) + rest,
                ),
            },
            forall|k: int| 0 <= k < posts@.len() ==> (#[trigger] posts@[k]).wf(),
        decreases data@.len() - cur,
    {
        let ghost before = cur;
        match decode_post(data, &mut cur) {
            Err(e) => {
                return Err(e);
            },
            Ok(None) => {
                assert(posts_model(posts@) + Seq::<PostModel>::empty() =~= posts_model(posts@));
                return Ok(Column { posts });
            },
            Ok(Some(post)) => {
                let ghost old_posts = posts@;
                posts.push(post);
                proof {
                    let rest = column_posts(data@, cur as int);
                    if let Some(tail) = rest {
                        assert(posts_model(posts@) =~= posts_model(old_posts) + seq![post_at(data@, before as int)]);
                        assert(posts_model(posts@) + tail =~= posts_model(old_posts) + (seq![post_at(data@, before as int)] + tail));
                    }
                }
            },
        }
    }
}

/// A decoded picture: a dense grid in which each pixel holds an RGB colour, or
/// `None` where no post drew it.
pub struct DecodedImage {
    width: usize,
    height: usize,
    left_offset: i16,
    top_offset: i16,
    columns: Vec<Vec<Option<[u8; 3]>>>,
}

impl DecodedImage {
    /// The grid has `width` columns of `height` pixels each.
    #[verifier::type_invariant]
    closed spec fn inv(self) -> bool {
        &&& self.columns@.len() == self.width
        &&& forall|x: int|
            0 <= x < self.width ==> (#[trigger] self.columns@[x])@.len() == self.height
    }

    pub closed spec fn spec_width(&self) -> int {
        self.width as int
    }

    pub closed spec fn spec_height(&self) -> int {
        self.height as int
    }

    pub closed spec fn spec_left_offset(&self) -> int {
        self.left_offset as int
    }

    pub closed spec fn spec_top_offset(&self) -> int {
        self.top_offset as int
    }

    /// The pixel in column `x` and row `y`.
    pub closed spec fn spec_pixel(&self, x: int, y: int) -> Option<[u8; 3]> {
        self.columns@[x]@[y]
    }

    pub fn width(&self) -> (r: usize)
        ensures
            r as int == self.spec_width(),
    {
        self.width
    }

    pub fn height(&self) -> (r: usize)
        ensures
            r as int == self.spec_height(),
    {
        self.height
    }

    /// Horizontal drawing offset from the header; not used in decoding.
    pub fn left_offset(&self) -> (r: i16)
        ensures
            r as int == self.spec_left_offset(),
    {
        self.left_offset
    }

    /// Vertical drawing offset from the header; not used in decoding.
    pub fn top_offset(&self) -> (r: i16)
        ensures
            r as int == self.spec_top_offset(),
    {
        self.top_offset
    }

    /// The pixel in column `x` and row `y`; `None` where no post drew it.
    pub fn pixel(&self, x: usize, y: usize) -> (r: Option<[u8; 3]>)
        requires
            x < self.spec_width(),
            y < self.spec_height(),
        ensures
            r == self.spec_pixel(x as int, y as int),
    {
        proof {
            use_type_invariant(self);
        }
        self.columns[x][y]
    }
}

/// Draws the posts of one column into a strip of `height` pixels, later posts
/// over earlier ones. Fails where a post reaches below the strip or uses a
/// colour index that the palette lacks.
fn paint_column(posts: &Vec<Post>, height: usize, palette: &Vec<[u8; 3]>) -> (r: Result<
    Vec<Option<[u8; 3]>>,
    WadError,
>)
    requires
        forall|k: int| 0 <= k < posts@.len() ==> (#[trigger] posts@[k]).wf(),
    ensures
        r is Ok <==> column_fits(posts_model(posts@), height as int, palette@.len() as int),
        r is Err ==> r == Err::<Vec<Option<[u8; 3]>>, WadError>(WadError::FormatError),
        r matches Ok(col) ==> {
            &&& col@.len() == height
            &&& forall|y: int|
                0 <= y < height ==> #[trigger] col@[y] == column_pixel(
                    posts_model(posts@),
                    y,
                    palette@,
                )
        },
{
    let ghost ps = posts_model(posts@);
    let mut col: Vec<Option<[u8; 3]>> = Vec::new();
    let mut y: usize = 0;
    while y < height
        invariant
            y <= height,
            col@.len() == y,
            forall|i: int| 0 <= i < y ==> #[trigger] col@[i] == None::<[u8; 3]>,
        decreases height - y,
    {
        col.push(None);
        y = y + 1;
    }
    assert(ps.take(0) =~= Seq::<PostModel>::empty());
    let mut k: usize = 0;
    while k < posts.len()
        invariant
            ps == posts_model(posts@),
            forall|j: int| 0 <= j < posts@.len() ==> (#[trigger] posts@[j]).wf(),
            k <= posts@.len(),
            col@.len() == height,
            forall|i: int| 0 <= i < height ==> #[trigger] col@[i] == column_pixel(ps.take(k as int), i, palette@),
            column_fits(ps.take(k as int), height as int, palette@.len() as int),
        decreases posts@.len() - k,
    {
        let post = &posts[k];
        assert(ps[k as int] == post@);
        if post.length as usize > height || post.top_delta as usize > height - post.length as usize {
            assert(!post_fits(ps[k as int], height as int, palette@.len() as int));
            return Err(WadError::FormatError);
        }
        let top = post.top_delta as usize;
        let ghost prev = ps.take(k as int);
        let mut j: usize = 0;
        while j < post.length as usize
            invariant
                ps == posts_model(posts@),
                post.wf(),
                post@ == ps[k as int],
                prev == ps.take(k as int),
                k < posts@.len(),
                ps.len() == posts@.len(),
                top == post.top_delta,
                top + post.length as usize <= height,
                j <= post.length,
                col@.len() == height,
                forall|i: int|
                    0 <= i < height ==> #[trigger] col@[i] == if top <= i < top + j {
                        Some(palette@[post.data@[i - top] as int])
                    } else {
                        column_pixel(prev, i, palette@)
                    },
                forall|i: int| 0 <= i < j ==> (#[trigger] post.data@[i]) < palette@.len(),
            decreases post.length - j,
        {
            let index = post.data[j];
            if index as usize >= palette.len() {
                assert(!post_fits(ps[k as int], height as int, palette@.len() as int));
                return Err(WadError::FormatError);
            }
            col.set(top + j, Some(palette[index as usize]));
            j = j + 1;
        }
        proof {
            let next = ps.take(k as int + 1);
            assert(next.drop_last() =~= prev);
            assert(next.last() == ps[k as int]);
            assert(post_fits(ps[k as int], height as int, palette@.len() as int));
            assert forall|i: int| 0 <= i < next.len() implies post_fits(#[trigger] next[i], height as int, palette@.len() as int) by {
                if i < k {
                    assert(next[i] == prev[i]);
                }
            }
        }
        k = k + 1;
    }
    assert(ps.take(posts@.len() as int) =~= ps);
    Ok(col)
}

/// `img` is the picture `b` drawn with palette `pal`.
pub open spec fn is_picture_of(img: DecodedImage, b: Seq<u8>, pal: Seq<[u8; 3]>) -> bool {
    &&& img.spec_width() == picture_width(b)
    &&& img.spec_height() == picture_height(b)
    &&& img.spec_left_offset() == le_i16(b, 4)
    &&& img.spec_top_offset() == le_i16(b, 6)
    &&& forall|x: int, y: int|
        0 <= x < img.spec_width() && 0 <= y < img.spec_height() ==> #[trigger] img.spec_pixel(x, y)
            == picture_pixel(b, pal, x, y)
}

/// Decodes a picture lump against a palette. Fails where the lump is cut
/// short, states a negative size, or holds a post that reaches below the
/// picture or uses a colour index that the palette lacks.
pub fn decode_lump_image(data: &Vec<u8>, palette: &Vec<[u8; 3]>) -> (r: Result<
    DecodedImage,
    WadError,
>)
    ensures
        r is Ok <==> picture_decodes(data@, palette@.len() as int),
        r is Err ==> r == Err::<DecodedImage, WadError>(WadError::FormatError),
        r matches Ok(img) ==> is_picture_of(img, data@, palette@),
{
    let header = match decode_picture_header(data) {
        Err(e) => {
            return Err(e);
        },
        Ok(h) => h,
    };
    if header.width < 0 || header.height < 0 {
        return Err(WadError::FormatError);
    }
    let width = header.width as usize;
    let height = header.height as usize;
    if HEADER_BYTES + 4 * width > data.len() {
        return Err(WadError::FormatError);
    }
    let ghost b = data@;
    let ghost n = palette@.len() as int;
    let mut columns: Vec<Vec<Option<[u8; 3]>>> = Vec::new();
    let mut x: usize = 0;
    while x < width
        invariant
            b == data@,
            n == palette@.len(),
            width as int == picture_width(b),
            height as int == picture_height(b),
            HEADER_BYTES + 4 * width <= b.len(),
            x <= width,
            columns@.len() == x,
            forall|c: int| 0 <= c < x ==> (#[trigger] column_posts(b, column_offset(b, c))) is Some,
            forall|c: int|
                0 <= c < x ==> column_fits(
                    (#[trigger] column_posts(b, column_offset(b, c)))->Some_0,
                    height as int,
                    n,
                ),
            forall|c: int| 0 <= c < x ==> (#[trigger] columns@[c])@.len() == height,
            forall|c: int, y: int|
                0 <= c < x && 0 <= y < height ==> #[trigger] columns@[c]@[y] == picture_pixel(
                    b,
                    palette@,
                    c,
                    y,
                ),
        decreases width - x,
    {
        let offset = read_u32_at(data.as_slice(), HEADER_BYTES + 4 * x);
        let column = match decode_column(data, offset as usize) {
            Err(e) => {
                assert(column_posts(b, column_offset(b, x as int)) is None);
                return Err(e);
            },
            Ok(c) => c,
        };
        let col = match paint_column(&column.posts, height, palette) {
            Err(e) => {
                assert(!column_fits(column_posts(b, column_offset(b, x as int))->Some_0, height as int, n));
                return Err(e);
            },
            Ok(col) => col,
        };
        assert(column_posts(b, column_offset(b, x as int)) is Some);
        let ghost old_columns = columns@;
        columns.push(col);
        assert forall|c: int, y: int|
            0 <= c < x + 1 && 0 <= y < height implies #[trigger] columns@[c]@[y] == picture_pixel(
                b,
                palette@,
                c,
                y,
            ) by {
            if c < x {
                assert(columns@[c] == old_columns[c]);
            }
        }
        x = x + 1;
    }
    let img = DecodedImage {
        width,
        height,
        left_offset: header.left_offset,
        top_offset: header.top_offset,
        columns,
    };
    assert forall|x: int, y: int|
        0 <= x < img.spec_width() && 0 <= y < img.spec_height() implies #[trigger] img.spec_pixel(x, y)
        == picture_pixel(data@, palette@, x, y) by {
        assert(img.columns@[x]@[y] == picture_pixel(b, palette@, x, y));
    }
    Ok(img)
}

/// A column whose first byte is `0xFF` has no posts, and none of its pixels
/// is drawn.
pub proof fn lemma_empty_column_undrawn(b: Seq<u8>, pal: Seq<[u8; 3]>, x: int)
    requires
        0 <= column_offset(b, x) < b.len(),
        b[column_offset(b, x)] == COLUMN_END,
    ensures
        column_posts(b, column_offset(b, x)) == Some(Seq::<PostModel>::empty()),
        forall|y: int| #[trigger] picture_pixel(b, pal, x, y) is None,
{
}

/// A post that reaches below the picture's last row keeps the picture from
/// decoding, whatever the palette.
pub proof fn lemma_post_past_bottom_rejected(b: Seq<u8>, n: int, x: int, k: int)
    requires
        0 <= x < picture_width(b),
        column_posts(b, column_offset(b, x)) is Some,
        0 <= k < column_posts(b, column_offset(b, x))->Some_0.len(),
        ({
            let p = column_posts(b, column_offset(b, x))->Some_0[k];
            p.0 + p.1.len() > picture_height(b)
        }),
    ensures
        !picture_decodes(b, n),
{
    let ps = column_posts(b, column_offset(b, x))->Some_0;
    assert(!post_fits(ps[k], picture_height(b), n));
}

/// Decoding the same bytes with the same palette twice gives the same image.
pub proof fn lemma_picture_deterministic(
    b: Seq<u8>,
    pal: Seq<[u8; 3]>,
    img1: DecodedImage,
    img2: DecodedImage,
)
    requires
        is_picture_of(img1, b, pal),
        is_picture_of(img2, b, pal),
    ensures
        img1.spec_width() == img2.spec_width(),
        img1.spec_height() == img2.spec_height(),
        img1.spec_left_offset() == img2.spec_left_offset(),
        img1.spec_top_offset() == img2.spec_top_offset(),
        forall|x: int, y: int|
            0 <= x < img1.spec_width() && 0 <= y < img1.spec_height() ==> #[trigger] img1.spec_pixel(x, y)
                == img2.spec_pixel(x, y),
{
    assert forall|x: int, y: int|
        0 <= x < img1.spec_width() && 0 <= y < img1.spec_height() implies #[trigger] img1.spec_pixel(x, y)
        == img2.spec_pixel(x, y) by {
        assert(img1.spec_pixel(x, y) == picture_pixel(b, pal, x, y));
        assert(img2.spec_pixel(x, y) == picture_pixel(b, pal, x, y));
    }
}

} // verus!
