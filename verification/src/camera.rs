//! The capture engine: buffer-pool bookkeeping, zero-copy mapping plans for
//! driver-owned frame buffers, round-robin capture submission with
//! backpressure, and correlation of asynchronous completion events back to
//! the buffer that produced them.
//!
//! The device itself (sensor configuration, memory mapping, request queues)
//! lives outside this crate; the engine here is the decision logic. Callers
//! hand it what the device reported (allocated buffers, memory-object
//! lengths, completion events) as plain values and perform the returned
//! actions.

use std::collections::HashMap;

use vstd::prelude::*;

use crate::config::{CameraConfig, PixelFormat, StreamConfig};
use crate::controls::CameraControls;
use crate::error::{LibcameraError, Result};
use crate::image::{
    jpeg_rgb_of, BgrImage, CameraImage, JpegRgb, MultiImage, RgbImage, Yuv420Image, YuyvImage,
};

verus! {

broadcast use vstd::std_specs::hash::group_hash_axioms;

/// One plane of a hardware frame buffer: a byte range inside the kernel
/// memory object identified by `fd`.
#[derive(Debug, Clone, Copy, PartialEq, Eq, Structural)]
pub struct Plane {
    /// The file descriptor identifying the backing memory object.
    pub fd: i32,
    /// Byte offset of this plane inside the memory object.
    pub offset: usize,
    /// Byte length of this plane.
    pub length: usize,
}

/// A device-allocated frame buffer, described by its planes.
pub struct FrameBuffer {
    /// The planes of this buffer, in plane order.
    pub planes: Vec<Plane>,
}

/// The length of one memory object, as reported by the device stack.
#[derive(Debug, Clone, Copy, PartialEq, Eq, Structural)]
pub struct FdLength {
    /// The file descriptor identifying the memory object.
    pub fd: i32,
    /// The total byte length of the memory object.
    pub length: usize,
}

/// One memory mapping to establish: map the object `fd` over its first
/// `length` bytes.
#[derive(Debug, Clone, Copy, PartialEq, Eq, Structural)]
pub struct MappedRegion {
    /// The file descriptor to map.
    pub fd: i32,
    /// How many bytes to map: the maximum extent any plane of the buffer
    /// reaches inside this object.
    pub length: usize,
}

/// A per-plane sub-view into one of a buffer's mapped regions.
#[derive(Debug, Clone, Copy, PartialEq, Eq, Structural)]
pub struct PlaneView {
    /// Index into the buffer's regions of the mapping this view lives in.
    pub region: usize,
    /// Byte offset of the view inside the region.
    pub offset: usize,
    /// Byte length of the view.
    pub length: usize,
}

/// The mapping plan for one frame buffer: one region per distinct memory
/// object (planes may share a descriptor), and one view per plane.
pub struct BufferMapping {
    /// The regions to map, one per distinct descriptor, in first-occurrence
    /// order.
    pub regions: Vec<MappedRegion>,
    /// One view per plane, in plane order.
    pub views: Vec<PlaneView>,
}

/// The length the device reported for the memory object `fd`: the first
/// matching entry of `fds`.
pub open spec fn spec_fd_length_from(fds: Seq<FdLength>, fd: i32, i: int) -> Option<usize>
    decreases fds.len() - i,
{
    if i < 0 || i >= fds.len() {
        None
    } else if fds[i].fd == fd {
        Some(fds[i].length)
    } else {
        spec_fd_length_from(fds, fd, i + 1)
    }
}

/// The length of the memory object `fd`, if `fds` reports one.
pub open spec fn spec_fd_length(fds: Seq<FdLength>, fd: i32) -> Option<usize> {
    spec_fd_length_from(fds, fd, 0)
}

/// The maximum extent (`offset + length`) any of the first `i` planes
/// reaches inside the memory object `fd`; 0 when none references it.
pub open spec fn spec_high_water(planes: Seq<Plane>, fd: i32, i: int) -> int
    decreases i,
{
    if i <= 0 {
        0
    } else {
        let prev = spec_high_water(planes, fd, i - 1);
        let p = planes[i - 1];
        if p.fd == fd && p.offset + p.length > prev {
            p.offset + p.length
        } else {
            prev
        }
    }
}

/// The distinct descriptors among the first `i` planes, in first-occurrence
/// order.
pub open spec fn spec_distinct_fds(planes: Seq<Plane>, i: int) -> Seq<i32>
    decreases i,
{
    if i <= 0 {
        Seq::empty()
    } else {
        let prev = spec_distinct_fds(planes, i - 1);
        if prev.contains(planes[i - 1].fd) {
            prev
        } else {
            prev.push(planes[i - 1].fd)
        }
    }
}

/// The first fault among the planes from index `i` on: a descriptor the
/// device reported no length for, or a plane extending past its object.
pub open spec fn spec_plane_fault_from(planes: Seq<Plane>, fds: Seq<FdLength>, i: int) -> Option<
    LibcameraError,
>
    decreases planes.len() - i,
{
    if i < 0 || i >= planes.len() {
        None
    } else {
        let p = planes[i];
        match spec_fd_length(fds, p.fd) {
            None => Some(LibcameraError::DeviceError),
            Some(l) => if p.offset + p.length > l {
                Some(LibcameraError::PlaneOutOfBounds)
            } else {
                spec_plane_fault_from(planes, fds, i + 1)
            },
        }
    }
}

/// The first fault among a buffer's planes, if any.
pub open spec fn spec_plane_fault(planes: Seq<Plane>, fds: Seq<FdLength>) -> Option<
    LibcameraError,
> {
    spec_plane_fault_from(planes, fds, 0)
}

/// What a correct mapping plan for `planes` looks like: one region per
/// distinct descriptor in first-occurrence order, each sized to the maximum
/// extent of the planes sharing it and no larger than the memory object;
/// one view per plane, inside the region of its descriptor.
pub open spec fn plan_wf(m: &BufferMapping, planes: Seq<Plane>, fds: Seq<FdLength>) -> bool {
    &&& m.views@.len() == planes.len()
    &&& m.regions@.map_values(|r: MappedRegion| r.fd) == spec_distinct_fds(planes, planes.len() as int)
    &&& forall|i: int|
        0 <= i < m.regions@.len() ==> (#[trigger] m.regions@[i]).length == spec_high_water(
            planes,
            m.regions@[i].fd,
            planes.len() as int,
        )
    &&& forall|i: int|
        0 <= i < m.regions@.len() ==> {
            match spec_fd_length(fds, (#[trigger] m.regions@[i]).fd) {
                Some(l) => m.regions@[i].length <= l,
                None => false,
            }
        }
    &&& forall|i: int, j: int|
        0 <= i < j < m.regions@.len() ==> (#[trigger] m.regions@[i]).fd != (
        #[trigger] m.regions@[j]).fd
    &&& forall|k: int|
        0 <= k < planes.len() ==> {
            let v = #[trigger] m.views@[k];
            &&& v.region < m.regions@.len()
            &&& v.offset == planes[k].offset
            &&& v.length == planes[k].length
            &&& m.regions@[v.region as int].fd == planes[k].fd
            &&& v.offset + v.length <= m.regions@[v.region as int].length
        }
}

/// Looks up the reported length of the memory object `fd`.
fn fd_length(fds: &Vec<FdLength>, fd: i32) -> (r: Option<usize>)
    ensures
        r == spec_fd_length(fds@, fd),
{
    let mut i: usize = 0;
    while i < fds.len()
        invariant
            0 <= i <= fds.len(),
            spec_fd_length(fds@, fd) == spec_fd_length_from(fds@, fd, i as int),
        decreases fds.len() - i,
    {
        if fds[i].fd == fd {
            return Some(fds[i].length);
        }
        i = i + 1;
    }
    None
}

/// Any plane of `fd` among the first `n` reaches no further than the high
/// water mark.
proof fn lemma_high_water_bound(planes: Seq<Plane>, fd: i32, k: int, n: int)
    requires
        0 <= k < n <= planes.len(),
        planes[k].fd == fd,
    ensures
        planes[k].offset + planes[k].length <= spec_high_water(planes, fd, n),
    decreases n,
{
    if k < n - 1 {
        lemma_high_water_bound(planes, fd, k, n - 1);
    }
}

/// A descriptor no plane among the first `n` references has a zero high
/// water mark.
proof fn lemma_high_water_unseen(planes: Seq<Plane>, fd: i32, n: int)
    requires
        0 <= n <= planes.len(),
        forall|j: int| 0 <= j < n ==> (#[trigger] planes[j]).fd != fd,
    ensures
        spec_high_water(planes, fd, n) == 0,
    decreases n,
{
    if n > 0 {
        lemma_high_water_unseen(planes, fd, n - 1);
    }
}

/// Turns one buffer's planes into a mapping plan: one region per distinct
/// memory object, sized to the furthest extent any plane reaches in it, and
/// one sub-view per plane. Fails, without planning anything, if the device
/// reports no length for a descriptor (`DeviceError`) or a plane extends
/// past its object (`PlaneOutOfBounds`): the latter is a fatal driver
/// contract violation, checked explicitly before any mapping happens.
pub fn plan_buffer_mapping(planes: &Vec<Plane>, fd_lengths: &Vec<FdLength>) -> (r: Result<
    BufferMapping,
>)
    ensures
        (r is Ok) == (spec_plane_fault(planes@, fd_lengths@) is None),
        match r {
            Ok(m) => plan_wf(&m, planes@, fd_lengths@),
            Err(e) => Some(e) == spec_plane_fault(planes@, fd_lengths@),
        },
{
    let ghost pl = planes@;
    let ghost fds = fd_lengths@;
    let n = planes.len();
    let mut regions: Vec<MappedRegion> = Vec::new();
    let mut k: usize = 0;
    while k < n
        invariant
            0 <= k <= n,
            n == pl.len(),
            planes@ == pl,
            fd_lengths@ == fds,
            spec_plane_fault(pl, fds) == spec_plane_fault_from(pl, fds, k as int),
            regions@.map_values(|r: MappedRegion| r.fd) == spec_distinct_fds(pl, k as int),
            forall|i: int, j: int|
                0 <= i < j < regions@.len() ==> (#[trigger] regions@[i]).fd != (
                #[trigger] regions@[j]).fd,
            forall|i: int|
                0 <= i < regions@.len() ==> (#[trigger] regions@[i]).length == spec_high_water(
                    pl,
                    regions@[i].fd,
                    k as int,
                ),
            forall|i: int|
                0 <= i < regions@.len() ==> {
                    match spec_fd_length(fds, (#[trigger] regions@[i]).fd) {
                        Some(l) => regions@[i].length <= l,
                        None => false,
                    }
                },
        decreases n - k,
    {
        let p = planes[k];
        // Find or create the region for this plane's descriptor.
        let mut idx: usize = 0;
        let mut found = false;
        while idx < regions.len() && !found
            invariant
                0 <= idx <= regions@.len(),
                found ==> idx < regions@.len() && regions@[idx as int].fd == p.fd,
                !found ==> forall|i: int|
                    0 <= i < idx ==> (#[trigger] regions@[i]).fd != p.fd,
            decreases regions@.len() - idx + (if found { 0int } else { 1int }),
        {
            if regions[idx].fd == p.fd {
                found = true;
            } else {
                idx = idx + 1;
            }
        }
        let object_len = match fd_length(fd_lengths, p.fd) {
            Some(l) => l,
            None => {
                return Err(LibcameraError::DeviceError);
            },
        };
        if p.length > object_len || p.offset > object_len - p.length {
            return Err(LibcameraError::PlaneOutOfBounds);
        }
        let extent = p.offset + p.length;
        if found {
            let old_len = regions[idx].length;
            if extent > old_len {
                regions[idx] = MappedRegion { fd: p.fd, length: extent };
            }
            proof {
                assert(regions@.map_values(|r: MappedRegion| r.fd) =~= spec_distinct_fds(
                    pl,
                    k as int,
                ));
                assert(spec_distinct_fds(pl, k as int).contains(pl[k as int].fd)) by {
                    assert(regions@.map_values(|r: MappedRegion| r.fd)[idx as int] == p.fd);
                }
                assert(spec_distinct_fds(pl, k as int + 1) =~= spec_distinct_fds(pl, k as int));
                assert forall|i: int| 0 <= i < regions@.len() implies (
                #[trigger] regions@[i]).length == spec_high_water(
                    pl,
                    regions@[i].fd,
                    k as int + 1,
                ) by {
                    if i == idx as int {
                        assert(spec_high_water(pl, p.fd, k as int + 1) == if pl[k as int].fd == p.fd
                            && pl[k as int].offset + pl[k as int].length > spec_high_water(
                            pl,
                            p.fd,
                            k as int,
                        ) {
                            pl[k as int].offset + pl[k as int].length
                        } else {
                            spec_high_water(pl, p.fd, k as int)
                        });
                    } else {
                        assert(regions@[i].fd != p.fd);
                        assert(spec_high_water(pl, regions@[i].fd, k as int + 1)
                            == spec_high_water(pl, regions@[i].fd, k as int));
                    }
                }
            }
        } else {
            proof {
                let prev = spec_distinct_fds(pl, k as int);
                assert(!prev.contains(pl[k as int].fd)) by {
                    if prev.contains(pl[k as int].fd) {
                        let i = choose|i: int| 0 <= i < prev.len() && prev[i] == pl[k as int].fd;
                        assert(regions@.map_values(|r: MappedRegion| r.fd)[i] == pl[k as int].fd);
                        assert(regions@[i].fd == p.fd);
                    }
                }
                assert forall|j: int| 0 <= j < k as int implies (#[trigger] pl[j]).fd != p.fd by {
                    lemma_distinct_fds_covers(pl, j, k as int);
                }
                lemma_high_water_unseen(pl, p.fd, k as int);
            }
            regions.push(MappedRegion { fd: p.fd, length: extent });
            proof {
                assert(regions@.map_values(|r: MappedRegion| r.fd) =~= spec_distinct_fds(
                    pl,
                    k as int + 1,
                ));
                assert forall|i: int| 0 <= i < regions@.len() implies (
                #[trigger] regions@[i]).length == spec_high_water(
                    pl,
                    regions@[i].fd,
                    k as int + 1,
                ) by {
                    if i == regions@.len() - 1 {
                        assert(spec_high_water(pl, p.fd, k as int) == 0);
                        assert(spec_high_water(pl, p.fd, k as int + 1) == pl[k as int].offset
                            + pl[k as int].length);
                    } else {
                        assert(regions@[i].fd != p.fd);
                        assert(spec_high_water(pl, regions@[i].fd, k as int + 1)
                            == spec_high_water(pl, regions@[i].fd, k as int));
                    }
                }
            }
        }
        k = k + 1;
    }
    // Every plane's extent is within its region (by the high water facts).
    let mut views: Vec<PlaneView> = Vec::new();
    let mut k2: usize = 0;
    while k2 < n
        invariant
            0 <= k2 <= n,
            n == pl.len(),
            planes@ == pl,
            fd_lengths@ == fds,
            regions@.map_values(|r: MappedRegion| r.fd) == spec_distinct_fds(pl, pl.len() as int),
            forall|i: int, j: int|
                0 <= i < j < regions@.len() ==> (#[trigger] regions@[i]).fd != (
                #[trigger] regions@[j]).fd,
            forall|i: int|
                0 <= i < regions@.len() ==> (#[trigger] regions@[i]).length == spec_high_water(
                    pl,
                    regions@[i].fd,
                    pl.len() as int,
                ),
            forall|i: int|
                0 <= i < regions@.len() ==> {
                    match spec_fd_length(fds, (#[trigger] regions@[i]).fd) {
                        Some(l) => regions@[i].length <= l,
                        None => false,
                    }
                },
            views@.len() == k2,
            forall|k: int|
                0 <= k < k2 ==> {
                    let v = #[trigger] views@[k];
                    &&& v.region < regions@.len()
                    &&& v.offset == pl[k].offset
                    &&& v.length == pl[k].length
                    &&& regions@[v.region as int].fd == pl[k].fd
                    &&& v.offset + v.length <= regions@[v.region as int].length
                },
        decreases n - k2,
    {
        let p = planes[k2];
        let mut idx: usize = 0;
        let mut found = false;
        while idx < regions.len() && !found
            invariant
                0 <= idx <= regions@.len(),
                found ==> idx < regions@.len() && regions@[idx as int].fd == p.fd,
                !found ==> forall|i: int|
                    0 <= i < idx ==> (#[trigger] regions@[i]).fd != p.fd,
            decreases regions@.len() - idx + (if found { 0int } else { 1int }),
        {
            if regions[idx].fd == p.fd {
                found = true;
            } else {
                idx = idx + 1;
            }
        }
        proof {
            // The first pass recorded a region for every plane's descriptor.
            lemma_distinct_fds_covers(pl, k2 as int, pl.len() as int);
            if !found {
                let fdseq = regions@.map_values(|r: MappedRegion| r.fd);
                let i = choose|i: int| 0 <= i < fdseq.len() && fdseq[i] == pl[k2 as int].fd;
                assert(regions@[i].fd == pl[k2 as int].fd);
            }
            lemma_high_water_bound(pl, pl[k2 as int].fd, k2 as int, pl.len() as int);
        }
        views.push(PlaneView { region: idx, offset: p.offset, length: p.length });
        k2 = k2 + 1;
    }
    Ok(BufferMapping { regions, views })
}

/// Every plane's descriptor appears among the distinct descriptors of any
/// longer prefix.
proof fn lemma_distinct_fds_covers(planes: Seq<Plane>, k: int, n: int)
    requires
        0 <= k < n <= planes.len(),
    ensures
        spec_distinct_fds(planes, n).contains(planes[k].fd),
    decreases n,
{
    if k == n - 1 {
        let prev = spec_distinct_fds(planes, n - 1);
        if !prev.contains(planes[k].fd) {
            assert(spec_distinct_fds(planes, n)[prev.len() as int] == planes[k].fd);
        }
    } else {
        lemma_distinct_fds_covers(planes, k, n - 1);
        let prev = spec_distinct_fds(planes, n - 1);
        if !prev.contains(planes[n - 1].fd) {
            let i = choose|i: int| 0 <= i < prev.len() && prev[i] == planes[k].fd;
            assert(spec_distinct_fds(planes, n)[i] == planes[k].fd);
        }
    }
}

/// The buffers the device allocated for one stream, in allocation order; a
/// buffer's position is its stable `buffer_id` for the stream's lifetime.
pub struct StreamAllocation {
    /// The allocated buffers.
    pub buffers: Vec<FrameBuffer>,
}

/// Bookkeeping for one buffer of a stream's pool: the serial id of the
/// in-flight request holding it, if any, and the mapping plan its planes
/// are read through.
pub struct CameraBuffer {
    /// The serial id of the live request bound to this buffer, `None` when
    /// the buffer is free. At most one live request references a buffer.
    pub request: Option<u64>,
    /// How this buffer's planes are mapped into process memory.
    pub mapping: BufferMapping,
}

/// Runtime state of one configured stream: its format, resolution,
/// round-robin cursor and buffer pool.
pub struct CameraStream {
    /// The stream's pixel format, if it is a known format.
    pub pixel_format: Option<PixelFormat>,
    /// Image width in pixels.
    pub width: u32,
    /// Image height in pixels.
    pub height: u32,
    /// Round-robin cursor: index of the buffer the next capture will use.
    pub next_buffer: usize,
    /// The buffer pool, indexed by `buffer_id`.
    pub buffers: Vec<CameraBuffer>,
}

/// What the engine records about one queued request, keyed by its serial id.
#[derive(Debug, Clone, Copy, PartialEq, Eq, Structural)]
pub struct RequestInfo {
    /// The stream the request captures on.
    pub stream_id: usize,
    /// The buffer the request fills.
    pub buffer_id: usize,
    /// When the request was queued, in caller-chosen ticks.
    pub timestamp: u64,
}

/// Abstract state of one stream: only what the correlation logic depends on.
pub struct StreamView {
    /// The stream's pixel format.
    pub pixel_format: Option<PixelFormat>,
    /// Image width in pixels.
    pub width: u32,
    /// Image height in pixels.
    pub height: u32,
    /// The round-robin cursor.
    pub next_buffer: int,
    /// Per buffer slot, the serial id of the live request holding it.
    pub requests: Seq<Option<u64>>,
}

impl View for CameraStream {
    type V = StreamView;

    open spec fn view(&self) -> StreamView {
        StreamView {
            pixel_format: self.pixel_format,
            width: self.width,
            height: self.height,
            next_buffer: self.next_buffer as int,
            requests: self.buffers@.map_values(|b: CameraBuffer| b.request),
        }
    }
}

/// Abstract state of the capture engine.
pub struct CameraView {
    /// The applied configuration's streams, if a configuration exists.
    pub config: Option<Seq<StreamConfig>>,
    /// Whether a configuration has been validated and applied.
    pub configured: bool,
    /// Whether the streams have been started.
    pub started: bool,
    /// The runtime streams.
    pub streams: Seq<StreamView>,
    /// The next serial id to hand out; never reused.
    pub next_request_id: u64,
    /// The pending-request table: serial id of every queued, uncompleted
    /// request, and which buffer it holds.
    pub pending: Map<u64, RequestInfo>,
}

/// A stream's cursor stays inside its pool.
pub open spec fn stream_view_wf(s: StreamView) -> bool {
    &&& s.requests.len() > 0 ==> 0 <= s.next_buffer < s.requests.len()
    &&& s.requests.len() == 0 ==> s.next_buffer == 0
}

/// The correlation invariant: the pending table and the buffers' live
/// request markers are two sides of one bijection, so no buffer is ever
/// held by two live requests and no live request is ever lost.
pub open spec fn engine_wf(streams: Seq<StreamView>, pending: Map<u64, RequestInfo>, next_id: u64) -> bool {
    &&& forall|i: int| 0 <= i < streams.len() ==> stream_view_wf(#[trigger] streams[i])
    &&& forall|id: u64|
        pending.dom().contains(id) ==> {
            let info = #[trigger] pending[id];
            &&& id < next_id
            &&& info.stream_id < streams.len()
            &&& info.buffer_id < streams[info.stream_id as int].requests.len()
            &&& streams[info.stream_id as int].requests[info.buffer_id as int] == Some(id)
        }
    &&& forall|i: int, b: int|
        0 <= i < streams.len() && 0 <= b < streams[i].requests.len() ==> ((
        #[trigger] streams[i].requests[b]) matches Some(id) ==> pending.dom().contains(id)
            && pending[id].stream_id == i && pending[id].buffer_id == b)
}

/// Engine-wide well-formedness of an abstract state.
pub open spec fn view_wf(v: CameraView) -> bool {
    &&& engine_wf(v.streams, v.pending, v.next_request_id)
    &&& !v.started ==> v.streams.len() == 0 && forall|id: u64| !v.pending.dom().contains(id)
}

/// A camera ready to capture: owns the configuration, the per-stream buffer
/// pools, the pending-request table and the control set, and decides every
/// capture-lifecycle step. The device work itself (mapping memory, queueing
/// to hardware, polling) is performed by the caller with the values this
/// engine hands out.
pub struct Camera {
    name: String,
    config: Option<CameraConfig>,
    streams: Vec<CameraStream>,
    configured: bool,
    started: bool,
    controls: CameraControls,
    next_request_id: u64,
    request_infos: HashMap<u64, RequestInfo>,
}

impl View for Camera {
    type V = CameraView;

    closed spec fn view(&self) -> CameraView {
        CameraView {
            config: match self.config {
                Some(c) => Some(c.spec_streams()),
                None => None,
            },
            configured: self.configured,
            started: self.started,
            streams: self.streams@.map_values(|s: CameraStream| s@),
            next_request_id: self.next_request_id,
            pending: self.request_infos@,
        }
    }
}

impl Camera {
    /// The camera's name.
    pub closed spec fn spec_name(&self) -> Seq<char> {
        self.name@
    }

    /// The runtime streams, with their mapping plans.
    pub closed spec fn spec_streams(&self) -> Seq<CameraStream> {
        self.streams@
    }

    /// The control set.
    pub closed spec fn spec_controls(&self) -> CameraControls {
        self.controls
    }

    /// The full configuration, if one was generated.
    pub closed spec fn spec_config(&self) -> Option<CameraConfig> {
        self.config
    }

    /// Well-formedness of the engine state.
    pub open spec fn wf(&self) -> bool {
        view_wf(self@)
    }

    /// A fresh camera: no configuration, no streams, no pending requests.
    pub fn new(name: String, controls: CameraControls) -> (r: Camera)
        ensures
            r.wf(),
            r.spec_name() == name@,
            r.spec_controls() == controls,
            r@.config is None,
            !r@.configured,
            !r@.started,
            r@.streams.len() == 0,
            r@.next_request_id == 0,
            forall|id: u64| !r@.pending.dom().contains(id),
    {
        Camera {
            name,
            config: None,
            streams: Vec::new(),
            configured: false,
            started: false,
            controls,
            next_request_id: 0,
            request_infos: HashMap::new(),
        }
    }

    /// The camera's name.
    pub fn name(&self) -> (r: &String)
        ensures
            r@ == self.spec_name(),
    {
        &self.name
    }

    /// Installs a freshly generated configuration. The previous
    /// configuration, if any, no longer counts as applied.
    pub fn generate_config(&mut self, config: CameraConfig)
        ensures
            final(self)@ == (CameraView {
                config: Some(config.spec_streams()),
                configured: false,
                ..old(self)@
            }),
            final(self).wf() == old(self).wf(),
            final(self).spec_controls() == old(self).spec_controls(),
            final(self).spec_streams() == old(self).spec_streams(),
            final(self).spec_name() == old(self).spec_name(),
            final(self).spec_config() == Some(config),
    {
        self.configured = false;
        self.config = Some(config);
    }

    /// Borrow this camera's config.
    pub fn get_config(&self) -> (r: Option<&CameraConfig>)
        ensures
            match (r, self.spec_config()) {
                (Some(c), Some(sc)) => *c == sc,
                (None, None) => true,
                _ => false,
            },
    {
        match &self.config {
            Some(c) => Some(c),
            None => None,
        }
    }

    /// Borrow the camera's controls.
    pub fn get_controls(&self) -> (r: &CameraControls)
        ensures
            *r == self.spec_controls(),
    {
        &self.controls
    }

    /// Borrow the camera's controls mutably, to adjust values between
    /// captures.
    pub fn get_controls_mut(&mut self) -> (r: &mut CameraControls)
        ensures
            *r == old(self).spec_controls(),
            final(self).spec_controls() == *final(r),
            final(self)@ == old(self)@,
            final(self).spec_streams() == old(self).spec_streams(),
            final(self).spec_name() == old(self).spec_name(),
            final(self).spec_config() == old(self).spec_config(),
            final(self).wf() == old(self).wf(),
    {
        &mut self.controls
    }

    /// Validates and applies the previously generated configuration, given
    /// the device's verdict on it. On `Valid` the configuration is applied
    /// unchanged; on `Adjusted` the device's corrected configuration
    /// replaces it; on `Invalid`, and with no configuration generated at
    /// all, the call fails and nothing is applied.
    pub fn apply_config(&mut self, verdict: CameraConfigurationStatus) -> (r: Result<ConfigStatus>)
        ensures
            final(self).wf() == old(self).wf(),
            final(self).spec_controls() == old(self).spec_controls(),
            final(self).spec_streams() == old(self).spec_streams(),
            final(self).spec_name() == old(self).spec_name(),
            match (old(self)@.config, verdict) {
                (Option::None, _) => {
                    &&& r == Err::<ConfigStatus, LibcameraError>(LibcameraError::InvalidConfig)
                    &&& final(self)@ == old(self)@
                    &&& final(self).spec_config() == old(self).spec_config()
                },
                (Option::Some(_), CameraConfigurationStatus::Valid) => {
                    &&& r == Ok::<ConfigStatus, LibcameraError>(ConfigStatus::Unchanged)
                    &&& final(self)@ == (CameraView { configured: true, ..old(self)@ })
                    &&& final(self).spec_config() == old(self).spec_config()
                },
                (Option::Some(_), CameraConfigurationStatus::Adjusted(adjusted)) => {
                    &&& r == Ok::<ConfigStatus, LibcameraError>(ConfigStatus::Changed)
                    &&& final(self)@ == (CameraView {
                        configured: true,
                        config: Some(adjusted.spec_streams()),
                        ..old(self)@
                    })
                    &&& final(self).spec_config() == Some(adjusted)
                },
                (Option::Some(_), CameraConfigurationStatus::Invalid) => {
                    &&& r == Err::<ConfigStatus, LibcameraError>(LibcameraError::InvalidConfig)
                    &&& final(self)@ == old(self)@
                    &&& final(self).spec_config() == old(self).spec_config()
                },
            },
    {
        if self.config.is_none() {
            return Err(LibcameraError::InvalidConfig);
        }
        match verdict {
            CameraConfigurationStatus::Valid => {
                self.configured = true;
                Ok(ConfigStatus::Unchanged)
            },
            CameraConfigurationStatus::Adjusted(adjusted) => {
                self.config = Some(adjusted);
                self.configured = true;
                Ok(ConfigStatus::Changed)
            },
            CameraConfigurationStatus::Invalid => Err(LibcameraError::InvalidConfig),
        }
    }
}

/// The device's verdict on a generated configuration.
pub enum CameraConfigurationStatus {
    /// The configuration is usable as it stands.
    Valid,
    /// The device adjusted the configuration to something it supports; the
    /// adjusted configuration is carried along.
    Adjusted(CameraConfig),
    /// The configuration cannot be used.
    Invalid,
}

/// The result of applying a configuration to a camera.
#[derive(Debug, Clone, Copy, PartialEq, Eq, Structural)]
pub enum ConfigStatus {
    /// The configuration was applied to the camera unchanged.
    Unchanged,
    /// The configuration was applied, but the device adjusted some values to
    /// a supported combination.
    Changed,
}

/// The kind of a notification polled from the device.
#[derive(Debug, Clone, Copy, PartialEq, Eq, Structural)]
pub enum CameraMessageType {
    /// A queued request has completed; its buffer holds a frame.
    RequestComplete,
    /// A single buffer of a request has completed.
    BufferComplete,
}

/// One notification polled from the device, tagged with the serial id
/// (cookie) the request was queued with.
#[derive(Debug, Clone, Copy, PartialEq, Eq, Structural)]
pub struct CameraMessage {
    /// What completed.
    pub message_type: CameraMessageType,
    /// The serial id the completed request was queued with.
    pub request_cookie: u64,
    /// The cookie of the completed buffer, for buffer-level notifications.
    pub buffer_cookie: u64,
}

/// References a camera buffer holding a completed frame that can be read
/// out through the stream's plane views.
#[derive(Debug, Clone, Copy, PartialEq, Eq, Structural)]
pub struct ImageBuffer {
    /// The pixel format of the frame, if it is known.
    pub pixel_format: Option<PixelFormat>,
    /// The width of the frame.
    pub width: usize,
    /// The height of the frame.
    pub height: usize,
    /// The stream the frame was captured on.
    pub stream_id: usize,
    /// The buffer of that stream holding the frame. Read it out before the
    /// buffer is reused by a later capture.
    pub buffer_id: usize,
}

/// An event the engine reports to its caller.
#[derive(Debug, Clone, Copy, PartialEq, Eq, Structural)]
pub enum CameraEvent {
    /// A capture request completed.
    RequestComplete {
        /// The serial id the capture was submitted under.
        serial_id: u64,
        /// The timestamp recorded when the capture was submitted.
        queue_timestamp: u64,
        /// Where the frame's data sits.
        image: ImageBuffer,
    },
}

/// The first fault among one stream's buffers, from buffer `b` on.
pub open spec fn spec_stream_fault_from(
    bufs: Seq<FrameBuffer>,
    fds: Seq<FdLength>,
    b: int,
) -> Option<LibcameraError>
    decreases bufs.len() - b,
{
    if b < 0 || b >= bufs.len() {
        None
    } else {
        match spec_plane_fault(bufs[b].planes@, fds) {
            Some(e) => Some(e),
            None => spec_stream_fault_from(bufs, fds, b + 1),
        }
    }
}

/// The first fault among all allocated buffers, from stream `i` on,
/// scanning streams in order and each stream's buffers in order.
pub open spec fn spec_allocation_fault_from(
    allocs: Seq<StreamAllocation>,
    fds: Seq<FdLength>,
    i: int,
) -> Option<LibcameraError>
    decreases allocs.len() - i,
{
    if i < 0 || i >= allocs.len() {
        None
    } else {
        match spec_stream_fault_from(allocs[i].buffers@, fds, 0) {
            Some(e) => Some(e),
            None => spec_allocation_fault_from(allocs, fds, i + 1),
        }
    }
}

/// The first fault among all allocated buffers, if any.
pub open spec fn spec_allocation_fault(allocs: Seq<StreamAllocation>, fds: Seq<FdLength>) -> Option<
    LibcameraError,
> {
    spec_allocation_fault_from(allocs, fds, 0)
}

/// A stream can accept a capture right now: its pool is non-empty and the
/// buffer under the round-robin cursor is free.
pub open spec fn stream_has_free_slot(s: StreamView) -> bool {
    s.requests.len() > 0 && s.requests[s.next_buffer] is None
}

/// The state and output after handling the first `n` device messages:
/// each `RequestComplete` whose serial id is pending retires that request,
/// frees its buffer and emits an event; everything else, including an
/// unrecognized serial id, is ignored and changes nothing. Events keep
/// device order.
pub open spec fn spec_complete(
    streams: Seq<StreamView>,
    pending: Map<u64, RequestInfo>,
    events: Seq<CameraMessage>,
    n: int,
) -> (Seq<StreamView>, Map<u64, RequestInfo>, Seq<CameraEvent>)
    decreases n,
{
    if n <= 0 {
        (streams, pending, Seq::<CameraEvent>::empty())
    } else {
        let prev = spec_complete(streams, pending, events, n - 1);
        let s = prev.0;
        let p = prev.1;
        let out = prev.2;
        let e = events[n - 1];
        if e.message_type is RequestComplete && p.dom().contains(e.request_cookie) {
            let info = p[e.request_cookie];
            let sv = s[info.stream_id as int];
            let ns = s.update(
                info.stream_id as int,
                StreamView { requests: sv.requests.update(info.buffer_id as int, Option::None), ..sv },
            );
            let ev = CameraEvent::RequestComplete {
                serial_id: e.request_cookie,
                queue_timestamp: info.timestamp,
                image: ImageBuffer {
                    pixel_format: sv.pixel_format,
                    width: sv.width as usize,
                    height: sv.height as usize,
                    stream_id: info.stream_id,
                    buffer_id: info.buffer_id,
                },
            };
            (ns, p.remove(e.request_cookie), out.push(ev))
        } else {
            (s, p, out)
        }
    }
}

/// Retiring a pending request keeps the correlation invariant: the entry
/// leaves the table exactly as its buffer's live marker is cleared.
proof fn lemma_retire_wf(
    streams: Seq<StreamView>,
    pending: Map<u64, RequestInfo>,
    next_id: u64,
    id: u64,
)
    requires
        engine_wf(streams, pending, next_id),
        pending.dom().contains(id),
    ensures
        ({
            let info = pending[id];
            let sv = streams[info.stream_id as int];
            engine_wf(
                streams.update(
                    info.stream_id as int,
                    StreamView {
                        requests: sv.requests.update(info.buffer_id as int, Option::None),
                        ..sv
                    },
                ),
                pending.remove(id),
                next_id,
            )
        }),
{
    let info = pending[id];
    let sv = streams[info.stream_id as int];
    let nstreams = streams.update(
        info.stream_id as int,
        StreamView { requests: sv.requests.update(info.buffer_id as int, Option::None), ..sv },
    );
    let npending = pending.remove(id);
    assert forall|id2: u64| npending.dom().contains(id2) implies {
        let info2 = npending[id2];
        &&& id2 < next_id
        &&& info2.stream_id < nstreams.len()
        &&& info2.buffer_id < nstreams[info2.stream_id as int].requests.len()
        &&& nstreams[info2.stream_id as int].requests[info2.buffer_id as int] == Some(id2)
    } by {
        let info2 = npending[id2];
        assert(pending.dom().contains(id2) && pending[id2] == info2);
        if info2.stream_id == info.stream_id && info2.buffer_id == info.buffer_id {
            // Two pending entries cannot hold the same buffer.
            assert(streams[info.stream_id as int].requests[info.buffer_id as int] == Some(id2));
            assert(streams[info.stream_id as int].requests[info.buffer_id as int] == Some(id));
            assert(false);
        }
    }
    assert forall|i: int, b: int|
        0 <= i < nstreams.len() && 0 <= b < nstreams[i].requests.len() implies ((
    #[trigger] nstreams[i].requests[b]) matches Some(id2) ==> npending.dom().contains(id2)
        && npending[id2].stream_id == i && npending[id2].buffer_id == b) by {
        if nstreams[i].requests[b] is Some {
            let id2 = nstreams[i].requests[b]->Some_0;
            assert(streams[i].requests[b] == Some(id2));
            assert(pending.dom().contains(id2));
            if id2 == id {
                assert(pending[id].stream_id == i && pending[id].buffer_id == b);
                assert(nstreams[i].requests[b] is None);
                assert(false);
            }
        }
    }
}

impl Camera {
    /// Starts the process of capturing an image on the given stream.
    ///
    /// Selects the buffer under the stream's round-robin cursor. If that
    /// buffer is still held by a live request — the caller submitted faster
    /// than completions were polled — the call fails with `NoBufferReady`
    /// and changes nothing: this is the engine's backpressure. Otherwise a
    /// fresh, never-reused serial id is allocated, the buffer is marked
    /// held, the request is recorded in the pending table and the cursor
    /// advances one slot (wrapping at the pool size).
    ///
    /// Returns the serial id to queue the device request under; completions
    /// echo it back. The caller queues the request together with the control
    /// values of [`Camera::get_controls`] that differ from their defaults.
    /// If queueing fails at the device, undo with [`Camera::abort_capture`].
    pub fn capture_next_picture(&mut self, stream_id: usize, timestamp: u64) -> (r: Result<u64>)
        requires
            old(self).wf(),
            stream_id < old(self)@.streams.len(),
            old(self)@.next_request_id < u64::MAX,
        ensures
            final(self).wf(),
            final(self).spec_controls() == old(self).spec_controls(),
            final(self).spec_name() == old(self).spec_name(),
            final(self).spec_config() == old(self).spec_config(),
            !stream_has_free_slot(old(self)@.streams[stream_id as int]) ==> {
                &&& r == Err::<u64, LibcameraError>(LibcameraError::NoBufferReady)
                &&& final(self)@ == old(self)@
                &&& final(self).spec_streams() == old(self).spec_streams()
            },
            stream_has_free_slot(old(self)@.streams[stream_id as int]) ==> {
                let s = old(self)@.streams[stream_id as int];
                let id = old(self)@.next_request_id;
                &&& r == Ok::<u64, LibcameraError>(id)
                &&& final(self)@ == (CameraView {
                    streams: old(self)@.streams.update(
                        stream_id as int,
                        StreamView {
                            next_buffer: (s.next_buffer + 1) % (s.requests.len() as int),
                            requests: s.requests.update(s.next_buffer, Some(id)),
                            ..s
                        },
                    ),
                    next_request_id: (id + 1) as u64,
                    pending: old(self)@.pending.insert(
                        id,
                        RequestInfo { stream_id, buffer_id: s.next_buffer as usize, timestamp },
                    ),
                    ..old(self)@
                })
                &&& forall|i: int|
                    0 <= i < old(self).spec_streams().len() && i != stream_id
                        ==> final(self).spec_streams()[i] == old(self).spec_streams()[i]
                &&& forall|b: int|
                    0 <= b < old(self).spec_streams()[stream_id as int].buffers@.len() ==> (
                    #[trigger] final(self).spec_streams()[stream_id as int].buffers@[b]).mapping
                        == old(self).spec_streams()[stream_id as int].buffers@[b].mapping
            },
    {
        let ghost pre = self@;
        let blen = self.streams[stream_id].buffers.len();
        if blen == 0 {
            return Err(LibcameraError::NoBufferReady);
        }
        let nb = self.streams[stream_id].next_buffer;
        proof {
            assert(pre.streams[stream_id as int] == self.streams@[stream_id as int]@);
            assert(stream_view_wf(pre.streams[stream_id as int]));
        }
        if self.streams[stream_id].buffers[nb].request.is_some() {
            return Err(LibcameraError::NoBufferReady);
        }
        let id = self.next_request_id;
        self.streams[stream_id].buffers[nb].request = Some(id);
        self.request_infos.insert(id, RequestInfo { stream_id, buffer_id: nb, timestamp });
        self.next_request_id = id + 1;
        let new_nb = (nb + 1) % blen;
        self.streams[stream_id].next_buffer = new_nb;
        proof {
            let s = pre.streams[stream_id as int];
            let post = self@;
            assert(self.streams@[stream_id as int]@.requests =~= s.requests.update(
                s.next_buffer,
                Some(id),
            ));
            assert(post.streams =~= pre.streams.update(
                stream_id as int,
                StreamView {
                    next_buffer: (s.next_buffer + 1) % (s.requests.len() as int),
                    requests: s.requests.update(s.next_buffer, Some(id)),
                    ..s
                },
            ));
            assert(post == (CameraView {
                streams: pre.streams.update(
                    stream_id as int,
                    StreamView {
                        next_buffer: (s.next_buffer + 1) % (s.requests.len() as int),
                        requests: s.requests.update(s.next_buffer, Some(id)),
                        ..s
                    },
                ),
                next_request_id: (id + 1) as u64,
                pending: pre.pending.insert(
                    id,
                    RequestInfo { stream_id, buffer_id: s.next_buffer as usize, timestamp },
                ),
                ..pre
            }));
            // The new state keeps the correlation invariant.
            let nstreams = post.streams;
            let npending = post.pending;
            assert forall|id2: u64| npending.dom().contains(id2) implies {
                let info2 = npending[id2];
                &&& id2 < post.next_request_id
                &&& info2.stream_id < nstreams.len()
                &&& info2.buffer_id < nstreams[info2.stream_id as int].requests.len()
                &&& nstreams[info2.stream_id as int].requests[info2.buffer_id as int] == Some(id2)
            } by {
                if id2 != id {
                    let info2 = pre.pending[id2];
                    if info2.stream_id == stream_id && info2.buffer_id == s.next_buffer {
                        assert(s.requests[info2.buffer_id as int] == Some(id2));
                        assert(false);
                    }
                }
            }
            assert forall|i: int, b: int|
                0 <= i < nstreams.len() && 0 <= b < nstreams[i].requests.len() implies ((
            #[trigger] nstreams[i].requests[b]) matches Some(id2) ==> npending.dom().contains(id2)
                && npending[id2].stream_id == i && npending[id2].buffer_id == b) by {
                if nstreams[i].requests[b] is Some {
                    let id2 = nstreams[i].requests[b]->Some_0;
                    if i == stream_id as int && b == s.next_buffer {
                        assert(id2 == id);
                    } else {
                        assert(pre.streams[i].requests[b] == Some(id2));
                        assert(pre.pending.dom().contains(id2));
                        assert(id2 < pre.next_request_id);
                    }
                }
            }
        }
        Ok(id)
    }

    /// Undoes a capture whose device-side queueing failed: removes the
    /// pending entry, frees the buffer and moves the stream's cursor back to
    /// that buffer, so the same buffer is retried next. Returns `false`, and
    /// changes nothing, when the serial id is not pending.
    pub fn abort_capture(&mut self, serial_id: u64) -> (r: bool)
        requires
            old(self).wf(),
        ensures
            final(self).wf(),
            final(self).spec_controls() == old(self).spec_controls(),
            final(self).spec_name() == old(self).spec_name(),
            final(self).spec_config() == old(self).spec_config(),
            r == old(self)@.pending.dom().contains(serial_id),
            !r ==> final(self)@ == old(self)@ && final(self).spec_streams() == old(self).spec_streams(),
            r ==> ({
                let info = old(self)@.pending[serial_id];
                let sv = old(self)@.streams[info.stream_id as int];
                final(self)@ == (CameraView {
                    streams: old(self)@.streams.update(
                        info.stream_id as int,
                        StreamView {
                            next_buffer: info.buffer_id as int,
                            requests: sv.requests.update(info.buffer_id as int, Option::None),
                            ..sv
                        },
                    ),
                    pending: old(self)@.pending.remove(serial_id),
                    ..old(self)@
                })
            }),
    {
        let ghost pre = self@;
        match self.request_infos.remove(&serial_id) {
            Some(info) => {
                self.streams[info.stream_id].buffers[info.buffer_id].request = None;
                self.streams[info.stream_id].next_buffer = info.buffer_id;
                proof {
                    let ginfo = pre.pending[serial_id];
                    let sv = pre.streams[ginfo.stream_id as int];
                    lemma_retire_wf(pre.streams, pre.pending, pre.next_request_id, serial_id);
                    assert(self.streams@[ginfo.stream_id as int]@.requests =~= sv.requests.update(
                        ginfo.buffer_id as int,
                        Option::None,
                    ));
                    assert(self@.streams =~= pre.streams.update(
                        ginfo.stream_id as int,
                        StreamView {
                            next_buffer: ginfo.buffer_id as int,
                            requests: sv.requests.update(ginfo.buffer_id as int, Option::None),
                            ..sv
                        },
                    ));
                    // Moving the cursor keeps it inside the pool.
                    let retired = pre.streams.update(
                        ginfo.stream_id as int,
                        StreamView {
                            requests: sv.requests.update(ginfo.buffer_id as int, Option::None),
                            ..sv
                        },
                    );
                    assert(engine_wf(retired, pre.pending.remove(serial_id), pre.next_request_id));
                    assert forall|i: int|
                        0 <= i < self@.streams.len() implies stream_view_wf(
                        #[trigger] self@.streams[i],
                    ) by {
                        assert(stream_view_wf(retired[i]));
                    }
                    assert(engine_wf(self@.streams, self@.pending, self@.next_request_id));
                }
                true
            },
            None => {
                proof {
                    assert(self@.pending =~= pre.pending);
                    assert(self@ == pre);
                }
                false
            },
        }
    }

    /// Handles the completion notifications the caller polled from the
    /// device, in the order the device delivered them (which need not be
    /// submission order — use the serial id or timestamp to reorder).
    ///
    /// Each `RequestComplete` message whose serial id is pending retires the
    /// request: the entry leaves the pending table, its buffer becomes free
    /// for reselection, and an event carrying the serial id, the queue
    /// timestamp and the buffer's coordinates is emitted. A message with an
    /// unrecognized serial id — already retired, or stale — is ignored and
    /// changes nothing. Each serial id is matched at most once.
    pub fn poll_events(&mut self, events: &Vec<CameraMessage>) -> (r: Vec<CameraEvent>)
        requires
            old(self).wf(),
        ensures
            final(self).wf(),
            final(self).spec_controls() == old(self).spec_controls(),
            final(self).spec_name() == old(self).spec_name(),
            final(self).spec_config() == old(self).spec_config(),
            ({
                let t = spec_complete(
                    old(self)@.streams,
                    old(self)@.pending,
                    events@,
                    events@.len() as int,
                );
                &&& final(self)@ == (CameraView { streams: t.0, pending: t.1, ..old(self)@ })
                &&& r@ == t.2
            }),
            final(self).spec_streams().len() == old(self).spec_streams().len(),
            forall|i: int|
                0 <= i < old(self).spec_streams().len() ==> {
                    let ns = #[trigger] final(self).spec_streams()[i];
                    let os = old(self).spec_streams()[i];
                    &&& ns.pixel_format == os.pixel_format
                    &&& ns.width == os.width
                    &&& ns.height == os.height
                    &&& ns.buffers@.len() == os.buffers@.len()
                    &&& forall|b: int|
                        0 <= b < os.buffers@.len() ==> (#[trigger] ns.buffers@[b]).mapping
                            == os.buffers@[b].mapping
                },
    {
        let ghost pre = self@;
        let ghost sc0 = self.spec_streams();
        let ghost ctl0 = self.spec_controls();
        let ghost name0 = self.spec_name();
        let ghost cfg0 = self.spec_config();
        let mut out: Vec<CameraEvent> = Vec::new();
        let mut k: usize = 0;
        while k < events.len()
            invariant
                self.wf(),
                k <= events@.len(),
                ({
                    let t = spec_complete(pre.streams, pre.pending, events@, k as int);
                    &&& self@ == (CameraView { streams: t.0, pending: t.1, ..pre })
                    &&& out@ == t.2
                }),
                self.spec_controls() == ctl0,
                self.spec_name() == name0,
                self.spec_config() == cfg0,
                self.spec_streams().len() == sc0.len(),
                forall|i: int|
                    0 <= i < sc0.len() ==> {
                        let ns = #[trigger] self.spec_streams()[i];
                        let os = sc0[i];
                        &&& ns.pixel_format == os.pixel_format
                        &&& ns.width == os.width
                        &&& ns.height == os.height
                        &&& ns.buffers@.len() == os.buffers@.len()
                        &&& forall|b: int|
                            0 <= b < os.buffers@.len() ==> (#[trigger] ns.buffers@[b]).mapping
                                == os.buffers@[b].mapping
                    },
            decreases events@.len() - k,
        {
            let e = events[k];
            let ghost tcur = spec_complete(pre.streams, pre.pending, events@, k as int);
            let ghost tnext = spec_complete(pre.streams, pre.pending, events@, k as int + 1);
            let is_request_complete = match e.message_type {
                CameraMessageType::RequestComplete => true,
                CameraMessageType::BufferComplete => false,
            };
            if is_request_complete {
                match self.request_infos.remove(&e.request_cookie) {
                    Some(info) => {
                        proof {
                            assert(tcur.1.dom().contains(e.request_cookie));
                            assert(info == tcur.1[e.request_cookie]);
                            assert(info.stream_id < tcur.0.len());
                            assert(self.streams@[info.stream_id as int]@ == tcur.0[info.stream_id as int]);
                        }
                        let pf = self.streams[info.stream_id].pixel_format;
                        let w = self.streams[info.stream_id].width;
                        let h = self.streams[info.stream_id].height;
                        self.streams[info.stream_id].buffers[info.buffer_id].request = None;
                        out.push(
                            CameraEvent::RequestComplete {
                                serial_id: e.request_cookie,
                                queue_timestamp: info.timestamp,
                                image: ImageBuffer {
                                    pixel_format: pf,
                                    width: w as usize,
                                    height: h as usize,
                                    stream_id: info.stream_id,
                                    buffer_id: info.buffer_id,
                                },
                            },
                        );
                        proof {
                            lemma_retire_wf(tcur.0, tcur.1, pre.next_request_id, e.request_cookie);
                            let sv = tcur.0[info.stream_id as int];
                            assert(self.streams@[info.stream_id as int]@.requests
                                =~= sv.requests.update(info.buffer_id as int, Option::None));
                            assert(self@.streams =~~= tcur.0.update(
                                info.stream_id as int,
                                StreamView {
                                    requests: sv.requests.update(info.buffer_id as int, Option::None),
                                    ..sv
                                },
                            ));
                            assert(self@.streams =~~= tnext.0);
                            assert(self@.pending =~= tnext.1);
                            assert(self@ == (CameraView { streams: tnext.0, pending: tnext.1, ..pre }));
                            assert(out@ =~= tnext.2);
                        }
                    },
                    None => {
                        proof {
                            assert(self@.pending =~= tcur.1);
                            assert(self@ == (CameraView { streams: tnext.0, pending: tnext.1, ..pre }));
                            assert(out@ =~= tnext.2);
                        }
                    },
                }
            } else {
                proof {
                    assert(self@ == (CameraView { streams: tnext.0, pending: tnext.1, ..pre }));
                    assert(out@ =~= tnext.2);
                }
            }
            k = k + 1;
        }
        out
    }

    /// Borrow the runtime streams, e.g. to establish the memory mappings
    /// their buffers' plans describe, or to read a completed frame out
    /// through its plane views.
    pub fn streams(&self) -> (r: &Vec<CameraStream>)
        ensures
            r@ == self.spec_streams(),
            r@.map_values(|s: CameraStream| s@) == self@.streams,
    {
        &self.streams
    }

    /// The serial id the next capture will be submitted under. The counter
    /// is process-wide and never reused; callers guard the machine limit of
    /// the 64-bit counter before submitting.
    pub fn next_request_id(&self) -> (r: u64)
        ensures
            r == self@.next_request_id,
    {
        self.next_request_id
    }

    /// Whether any submitted capture has not completed yet. Teardown must
    /// poll until this is false before releasing the mapped buffers: the
    /// device may still be writing into them.
    pub fn has_pending_requests(&self) -> (r: bool)
        ensures
            r == !self@.pending.is_empty(),
    {
        !self.request_infos.is_empty()
    }

    /// Allocates the engine's per-stream state and plans the buffer
    /// mappings, so the camera is ready to capture.
    ///
    /// `allocations` holds, per configured stream, the frame buffers the
    /// device allocated; `fd_lengths` the real length of each memory object
    /// the planes reference. Fails with `InvalidConfig` before any work when
    /// no configuration has been applied, or when the allocation does not
    /// cover exactly the configured streams. Fails with the first buffer
    /// fault otherwise: `DeviceError` when a descriptor's length is missing,
    /// `PlaneOutOfBounds` when a plane extends past its memory object — the
    /// driver-contract violation that must stop the stream before anything
    /// is mapped. On failure nothing is started and nothing is kept.
    ///
    /// On success returns whether the camera was newly started: a second
    /// call returns `Ok(false)` and changes nothing.
    pub fn start_stream(&mut self, allocations: &Vec<StreamAllocation>, fd_lengths: &Vec<FdLength>) -> (r:
        Result<bool>)
        requires
            old(self).wf(),
        ensures
            final(self).wf(),
            final(self).spec_controls() == old(self).spec_controls(),
            final(self).spec_name() == old(self).spec_name(),
            final(self).spec_config() == old(self).spec_config(),
            !old(self)@.configured ==> {
                &&& r == Err::<bool, LibcameraError>(LibcameraError::InvalidConfig)
                &&& final(self)@ == old(self)@
                &&& final(self).spec_streams() == old(self).spec_streams()
            },
            old(self)@.configured && old(self)@.started ==> {
                &&& r == Ok::<bool, LibcameraError>(false)
                &&& final(self)@ == old(self)@
                &&& final(self).spec_streams() == old(self).spec_streams()
            },
            old(self)@.configured && !old(self)@.started && old(self)@.config is None ==> {
                &&& r == Err::<bool, LibcameraError>(LibcameraError::InvalidConfig)
                &&& final(self)@ == old(self)@
                &&& final(self).spec_streams() == old(self).spec_streams()
            },
            ({
                &&& old(self)@.configured
                &&& !old(self)@.started
                &&& old(self)@.config is Some
            }) ==> {
                let cfg = old(self)@.config->Some_0;
                if allocations@.len() != cfg.len() {
                    r == Err::<bool, LibcameraError>(LibcameraError::InvalidConfig) && final(self)@
                        == old(self)@ && final(self).spec_streams() == old(self).spec_streams()
                } else {
                    match spec_allocation_fault(allocations@, fd_lengths@) {
                        Some(e) => {
                            &&& r == Err::<bool, LibcameraError>(e)
                            &&& final(self)@ == old(self)@
                            &&& final(self).spec_streams() == old(self).spec_streams()
                        },
                        None => {
                            &&& r == Ok::<bool, LibcameraError>(true)
                            &&& final(self)@ == (CameraView {
                                started: true,
                                streams: Seq::new(
                                    allocations@.len(),
                                    |i: int|
                                        StreamView {
                                            pixel_format: cfg[i].spec_pixel_format(),
                                            width: cfg[i].spec_width(),
                                            height: cfg[i].spec_height(),
                                            next_buffer: 0,
                                            requests: Seq::new(
                                                allocations@[i].buffers@.len(),
                                                |b: int| Option::<u64>::None,
                                            ),
                                        },
                                ),
                                ..old(self)@
                            })
                            &&& final(self).spec_streams().len() == allocations@.len()
                            &&& forall|i: int, b: int|
                                0 <= i < allocations@.len() && 0 <= b
                                    < allocations@[i].buffers@.len() ==> plan_wf(
                                    &(#[trigger] final(self).spec_streams()[i].buffers@[b]).mapping,
                                    allocations@[i].buffers@[b].planes@,
                                    fd_lengths@,
                                )
                        },
                    }
                }
            },
    {
        let ghost pre = self@;
        if !self.configured {
            return Err(LibcameraError::InvalidConfig);
        }
        if self.started {
            return Ok(false);
        }
        match &self.config {
            Some(c) => {
                if allocations.len() != c.streams().len() {
                    return Err(LibcameraError::InvalidConfig);
                }
            },
            None => {
                return Err(LibcameraError::InvalidConfig);
            },
        }
        let ghost cfg = pre.config->Some_0;
        let n = allocations.len();
        let mut new_streams: Vec<CameraStream> = Vec::new();
        let mut i: usize = 0;
        while i < n
            invariant
                self@ == old(self)@,
                self.wf(),
                self.spec_streams() == old(self).spec_streams(),
                self.spec_controls() == old(self).spec_controls(),
                self.spec_name() == old(self).spec_name(),
                self.spec_config() == old(self).spec_config(),
                old(self)@.configured,
                !old(self)@.started,
                old(self)@.config == Some(cfg),
                0 <= i <= n,
                n == allocations@.len(),
                cfg.len() == n,
                spec_allocation_fault(allocations@, fd_lengths@) == spec_allocation_fault_from(
                    allocations@,
                    fd_lengths@,
                    i as int,
                ),
                new_streams@.len() == i,
                forall|j: int|
                    0 <= j < i ==> (#[trigger] new_streams@[j])@ == (StreamView {
                        pixel_format: cfg[j].spec_pixel_format(),
                        width: cfg[j].spec_width(),
                        height: cfg[j].spec_height(),
                        next_buffer: 0,
                        requests: Seq::new(
                            allocations@[j].buffers@.len(),
                            |b: int| Option::<u64>::None,
                        ),
                    }),
                forall|j: int, b: int|
                    0 <= j < i && 0 <= b < allocations@[j].buffers@.len() ==> {
                        &&& new_streams@[j].buffers@.len() == allocations@[j].buffers@.len()
                        &&& plan_wf(
                            &(#[trigger] new_streams@[j].buffers@[b]).mapping,
                            allocations@[j].buffers@[b].planes@,
                            fd_lengths@,
                        )
                        &&& new_streams@[j].buffers@[b].request is None
                    },
            decreases n - i,
        {
            let sc = match &self.config {
                Some(c) => c.streams()[i],
                None => {
                    proof {
                        assert(false);
                    }
                    return Err(LibcameraError::InvalidConfig);
                },
            };
            let buf_count = allocations[i].buffers.len();
            let mut bufs: Vec<CameraBuffer> = Vec::new();
            let mut b: usize = 0;
            while b < buf_count
                invariant
                    0 <= b <= buf_count,
                    i < n,
                    n == allocations@.len(),
                    buf_count == allocations@[i as int].buffers@.len(),
                    spec_allocation_fault(allocations@, fd_lengths@) == spec_allocation_fault_from(
                        allocations@,
                        fd_lengths@,
                        i as int,
                    ),
                    spec_stream_fault_from(allocations@[i as int].buffers@, fd_lengths@, 0)
                        == spec_stream_fault_from(
                        allocations@[i as int].buffers@,
                        fd_lengths@,
                        b as int,
                    ),
                    bufs@.len() == b,
                    forall|x: int|
                        0 <= x < b ==> {
                            &&& plan_wf(
                                &(#[trigger] bufs@[x]).mapping,
                                allocations@[i as int].buffers@[x].planes@,
                                fd_lengths@,
                            )
                            &&& bufs@[x].request is None
                        },
                    self@ == old(self)@,
                    self.wf(),
                    self.spec_streams() == old(self).spec_streams(),
                    self.spec_controls() == old(self).spec_controls(),
                    self.spec_name() == old(self).spec_name(),
                    self.spec_config() == old(self).spec_config(),
                    old(self)@.configured,
                    !old(self)@.started,
                    old(self)@.config == Some(cfg),
                    cfg.len() == n,
                decreases buf_count - b,
            {
                match plan_buffer_mapping(&allocations[i].buffers[b].planes, fd_lengths) {
                    Ok(m) => {
                        bufs.push(CameraBuffer { request: None, mapping: m });
                    },
                    Err(e) => {
                        proof {
                            assert(spec_stream_fault_from(
                                allocations@[i as int].buffers@,
                                fd_lengths@,
                                b as int,
                            ) == Some(e));
                            assert(spec_allocation_fault_from(allocations@, fd_lengths@, i as int)
                                == Some(e));
                        }
                        return Err(e);
                    },
                }
                b = b + 1;
            }
            let (width, height) = sc.get_size();
            let pixel_format = sc.get_pixel_format();
            new_streams.push(
                CameraStream { pixel_format, width, height, next_buffer: 0, buffers: bufs },
            );
            proof {
                assert(new_streams@[i as int]@.requests =~= Seq::new(
                    allocations@[i as int].buffers@.len(),
                    |b: int| Option::<u64>::None,
                ));
            }
            i = i + 1;
        }
        self.streams = new_streams;
        self.started = true;
        proof {
            assert(self@.streams =~~= Seq::new(
                allocations@.len(),
                |i: int|
                    StreamView {
                        pixel_format: cfg[i].spec_pixel_format(),
                        width: cfg[i].spec_width(),
                        height: cfg[i].spec_height(),
                        next_buffer: 0,
                        requests: Seq::new(
                            allocations@[i].buffers@.len(),
                            |b: int| Option::<u64>::None,
                        ),
                    },
            ));
            assert(self@ == (CameraView { started: true, streams: self@.streams, ..pre }));
            assert forall|id: u64| !self@.pending.dom().contains(id) by {
                assert(!pre.pending.dom().contains(id));
            }
            assert(engine_wf(self@.streams, self@.pending, self@.next_request_id));
        }
        Ok(true)
    }
}


/// Raw image data read out of a completed capture buffer.
pub struct RawCameraImage {
    /// The pixel format for the image, if it is known.
    pub pixel_format: Option<PixelFormat>,
    /// The width of the image.
    pub width: usize,
    /// The height of the image.
    pub height: usize,
    /// The raw data planes for the image.
    pub planes: Vec<Vec<u8>>,
}

impl RawCameraImage {
    /// Attempts to decode this camera image.
    ///
    /// Supports the BGR, RGB, YUYV and YUV 4:2:0 layouts, and MJPEG through
    /// the JPEG decoder. Succeeds exactly when the planes fit the claimed
    /// format's size invariant (for MJPEG: when the single plane decodes to
    /// an RGB image); anything else is `None`, never a guess.
    pub fn try_decode(self) -> (r: Option<MultiImage>)
        ensures
            ({
                let w = self.width as int;
                let h = self.height as int;
                let ps = self.planes.deep_view();
                match self.pixel_format {
                    Some(PixelFormat::Bgr888) => if BgrImage::planes_ok(w, h, ps) {
                        r matches Some(MultiImage::Bgr(i)) && i.wf() && i.spec_size() == (
                        self.width,
                        self.height,
                        ) && i.spec_planes() == ps
                    } else {
                        r is None
                    },
                    Some(PixelFormat::Rgb888) => if RgbImage::planes_ok(w, h, ps) {
                        r matches Some(MultiImage::Rgb(i)) && i.wf() && i.spec_size() == (
                        self.width,
                        self.height,
                        ) && i.spec_planes() == ps
                    } else {
                        r is None
                    },
                    Some(PixelFormat::Yuyv) => if YuyvImage::planes_ok(w, h, ps) {
                        r matches Some(MultiImage::Yuyv(i)) && i.wf() && i.spec_size() == (
                        self.width,
                        self.height,
                        ) && i.spec_planes() == ps
                    } else {
                        r is None
                    },
                    Some(PixelFormat::Yuv420) => if Yuv420Image::planes_ok(w, h, ps) {
                        r matches Some(MultiImage::Yuv420(i)) && i.wf() && i.spec_size() == (
                        self.width,
                        self.height,
                        ) && i.spec_planes() == ps
                    } else {
                        r is None
                    },
                    Some(PixelFormat::Mjpeg) => if ps.len() == 1 {
                        match jpeg_rgb_of(ps[0]) {
                            JpegRgb::Rgb8(w, h, bytes) => r matches Some(MultiImage::Rgb(i))
                                && i.wf() && i.spec_size() == (w as usize, h as usize)
                                && i.spec_data() == bytes,
                            _ => r is None,
                        }
                    } else {
                        r is None
                    },
                    _ => r is None,
                }
            }),
    {
        let ghost ps = self.planes.deep_view();
        let RawCameraImage { pixel_format, width, height, planes } = self;
        match pixel_format {
            Some(PixelFormat::Bgr888) => match BgrImage::from_planes(width, height, planes) {
                Some(i) => Some(MultiImage::Bgr(i)),
                None => None,
            },
            Some(PixelFormat::Rgb888) => match RgbImage::from_planes(width, height, planes) {
                Some(i) => Some(MultiImage::Rgb(i)),
                None => None,
            },
            Some(PixelFormat::Yuyv) => match YuyvImage::from_planes(width, height, planes) {
                Some(i) => Some(MultiImage::Yuyv(i)),
                None => None,
            },
            Some(PixelFormat::Yuv420) => match Yuv420Image::from_planes(width, height, planes) {
                Some(i) => Some(MultiImage::Yuv420(i)),
                None => None,
            },
            Some(PixelFormat::Mjpeg) => {
                if planes.len() == 1 {
                    proof {
                        assert(planes@[0].deep_view() =~= planes@[0]@);
                        assert(ps[0] == planes@[0]@);
                    }
                    match RgbImage::decode_jpeg(planes[0].as_slice()) {
                        Ok(i) => Some(MultiImage::Rgb(i)),
                        Err(_) => None,
                    }
                } else {
                    None
                }
            },
            _ => None,
        }
    }
}

/// Two distinct live requests never reference the same buffer: the
/// pending-request table is a bijection onto the held buffer slots.
pub proof fn lemma_no_double_buffer_use(v: CameraView, id1: u64, id2: u64)
    requires
        view_wf(v),
        v.pending.dom().contains(id1),
        v.pending.dom().contains(id2),
        id1 != id2,
    ensures
        !(v.pending[id1].stream_id == v.pending[id2].stream_id && v.pending[id1].buffer_id
            == v.pending[id2].buffer_id),
{
    let i1 = v.pending[id1];
    let i2 = v.pending[id2];
    if i1.stream_id == i2.stream_id && i1.buffer_id == i2.buffer_id {
        assert(v.streams[i1.stream_id as int].requests[i1.buffer_id as int] == Some(id1));
        assert(v.streams[i2.stream_id as int].requests[i2.buffer_id as int] == Some(id2));
    }
}

/// A completion event whose serial id is not pending — already retired, or
/// never issued — is ignored: it changes no stream, retires nothing and
/// emits nothing.
pub proof fn lemma_unknown_serial_ignored(
    streams: Seq<StreamView>,
    pending: Map<u64, RequestInfo>,
    events: Seq<CameraMessage>,
    n: int,
)
    requires
        0 <= n < events.len(),
        !spec_complete(streams, pending, events, n).1.dom().contains(events[n].request_cookie),
    ensures
        spec_complete(streams, pending, events, n + 1) == spec_complete(
            streams,
            pending,
            events,
            n,
        ),
{
}

} // verus!
