//! The OpenCV camera objects: their names, their capture state, and the frames they publish.
use vstd::prelude::*;
use crate::core_trait::CoreTrait;
use crate::error::CvError;
use crate::frame::{Frame, frame_dims, shape_fits};

verus! {

/// The channel that holds opacity in an RGBA frame.
pub const ALPHA_CHANNEL: usize = 3;

/// The opacity written into every published pixel.
pub const OPAQUE: u8 = 255;

/// Rows of the frame a camera publishes before its first capture.
pub const INITIAL_ROWS: usize = 720;

/// Columns of the frame a camera publishes before its first capture.
pub const INITIAL_COLS: usize = 1280;

/// Channels of the frame a camera publishes before its first capture.
pub const INITIAL_CHANNELS: usize = 4;

/// The bytes of a published frame: the first `raw.len()` bytes come from `raw`,
/// the later ones keep the frame's previous bytes, and the alpha channel is opaque.
pub open spec fn published_pixels(previous: Seq<u8>, raw: Seq<u8>, channels: int) -> Seq<u8> {
    Seq::new(
        previous.len(),
        |u: int|
            if u % channels == ALPHA_CHANNEL as int {
                OPAQUE
            } else if u < raw.len() {
                raw[u]
            } else {
                previous[u]
            },
    )
}

/// A camera driven directly by the capture backend. `D` is the opened capture device.
pub struct CameraOpencvCore<D> {
    name: String,
    cap: Result<D, CvError>,
}

impl<D> CameraOpencvCore<D> {
    /// The capture state: the opened device, or the error that stopped it from opening.
    pub closed spec fn spec_cap(&self) -> Result<D, CvError> {
        self.cap
    }

    /// A camera named `name` whose capture state is `cap`.
    pub fn new(name: &str, cap: Result<D, CvError>) -> (r: Self)
        ensures
            r.spec_name() == name@,
            r.spec_cap() == cap,
    {
        CameraOpencvCore { name: name.to_string(), cap }
    }

    /// What a read or a grab works on: the opened device, or a copy of the
    /// error that the capture holds.
    pub fn capture(&self) -> (r: Result<&D, CvError>)
        ensures
            match self.spec_cap() {
                Ok(device) => r == Ok::<&D, CvError>(&device),
                Err(e) => r matches Err(copy) && copy.code == e.code && copy.message@ == e.message@,
            },
    {
        match &self.cap {
            Ok(device) => Ok(device),
            Err(e) => Err(e.duplicate()),
        }
    }
}

impl<D> CoreTrait for CameraOpencvCore<D> {
    closed spec fn spec_name(&self) -> Seq<char> {
        self.name@
    }

    open spec fn spec_type_label(&self) -> Seq<char> {
        "CameraOpencvCore"@
    }

    fn name(&self) -> (r: String) {
        self.name.clone()
    }

    fn type_label(&self) -> (r: String) {
        String::from_str("CameraOpencvCore")
    }
}

/// A camera whose frames come from a capture worker.
pub struct CameraOpencv {
    name: String,
}

impl CameraOpencv {
    /// A camera named `name`.
    pub fn new(name: &str) -> (r: Self)
        ensures
            r.spec_name() == name@,
    {
        CameraOpencv { name: name.to_string() }
    }

    /// The frame a camera publishes before its first capture: 720 × 1280 RGBA, all zero.
    pub fn initial_frame() -> (r: Frame)
        ensures
            frame_dims(r) == (INITIAL_ROWS, INITIAL_COLS, INITIAL_CHANNELS),
            r.pixels() == Seq::new((INITIAL_ROWS * INITIAL_COLS * INITIAL_CHANNELS) as nat, |_i: int| 0u8),
    {
        Frame::from_elem(INITIAL_ROWS, INITIAL_COLS, INITIAL_CHANNELS, 0u8)
    }
}

impl CoreTrait for CameraOpencv {
    closed spec fn spec_name(&self) -> Seq<char> {
        self.name@
    }

    open spec fn spec_type_label(&self) -> Seq<char> {
        "CameraOpencv"@
    }

    fn name(&self) -> (r: String) {
        self.name.clone()
    }

    fn type_label(&self) -> (r: String) {
        String::from_str("CameraOpencv")
    }
}

/// The plugin that makes OpenCV cameras.
pub struct CameraOpencvPlugin;

/// Writes `raw` into `frame` from its first element on and makes every pixel opaque.
pub fn publish_frame(frame: &mut Frame, raw: &[u8])
    requires
        raw@.len() <= old(frame).pixels().len(),
        old(frame).channels() > ALPHA_CHANNEL,
    ensures
        frame_dims(*final(frame)) == frame_dims(*old(frame)),
        final(frame).pixels() == published_pixels(
            old(frame).pixels(),
            raw@,
            old(frame).channels() as int,
        ),
{
    let ghost previous = frame.pixels();
    frame.copy_from_bytes(raw);
    frame.fill_channel(ALPHA_CHANNEL, OPAQUE);
    assert(frame.pixels() =~= published_pixels(previous, raw@, frame.channels() as int));
}

/// A new `rows × cols × channels` frame holding `raw` from its first element on,
/// zero after it, with every pixel opaque.
pub fn frame_from_capture(rows: usize, cols: usize, channels: usize, raw: &[u8]) -> (r: Frame)
    requires
        shape_fits(rows, cols, channels),
        raw@.len() <= rows * cols * channels,
        channels > ALPHA_CHANNEL,
    ensures
        frame_dims(r) == (rows, cols, channels),
        r.pixels() == published_pixels(
            Seq::new((rows * cols * channels) as nat, |_i: int| 0u8),
            raw@,
            channels as int,
        ),
{
    let mut frame = Frame::zeros(rows, cols, channels);
    publish_frame(&mut frame, raw);
    frame
}


/// Every published frame is opaque: each alpha byte is `OPAQUE`; every other byte
/// below `raw.len()` is the raw byte at the same place, and the bytes after the raw
/// ones keep their previous values; the frame keeps its size.
pub proof fn law_published_frame_opaque(previous: Seq<u8>, raw: Seq<u8>, channels: int)
    requires
        channels > ALPHA_CHANNEL,
        raw.len() <= previous.len(),
    ensures
        published_pixels(previous, raw, channels).len() == previous.len(),
        forall|u: int|
            0 <= u < previous.len() && u % channels == ALPHA_CHANNEL as int ==> #[trigger] published_pixels(
                previous,
                raw,
                channels,
            )[u] == OPAQUE,
        forall|u: int|
            0 <= u < raw.len() && u % channels != ALPHA_CHANNEL as int ==> #[trigger] published_pixels(
                previous,
                raw,
                channels,
            )[u] == raw[u],
        forall|u: int|
            raw.len() <= u < previous.len() && u % channels != ALPHA_CHANNEL as int
                ==> #[trigger] published_pixels(previous, raw, channels)[u] == previous[u],
{
}

} // verus!
