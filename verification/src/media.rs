//! Media capability runtime: records which rendering and decoding backends
//! the platform offers and which are selected, falling back to the safe
//! defaults whenever a selection loses its backing capability.
//!
//! Probing the platform (running an ffmpeg binary, querying the GPU) is the
//! caller's business: the probe results come in as plain booleans.

use vstd::prelude::*;

verus! {

/// Available rendering backends.
#[derive(Debug, Clone, Copy, PartialEq, Eq, Structural)]
pub enum RendererBackend {
    Webgl2,
    Webgpu,
}

/// Available video-decode backends.
#[derive(Debug, Clone, Copy, PartialEq, Eq, Structural)]
pub enum DecodeBackend {
    Htmlvideo,
    Webcodecs,
    NativeFfmpeg,
}

/// What the platform offers and which backends are currently selected.
#[derive(Debug, Clone, Copy, PartialEq, Eq, Structural)]
pub struct RuntimeCapabilities {
    pub webgl2: bool,
    pub webgpu: bool,
    pub webcodecs: bool,
    pub native_ffmpeg: bool,
    pub rust_ffmpeg_feature: bool,
    pub selected_renderer: RendererBackend,
    pub selected_decode: DecodeBackend,
}

/// Why a backend selection was refused.
#[derive(Debug, Clone, Copy, PartialEq, Eq, Structural)]
pub enum MediaRuntimeError {
    WebGpuUnavailable,
    NativeFfmpegUnavailable,
    WebCodecsUnavailable,
}

/// Capabilities as freshly detected: WebGL2 always present, WebGPU and
/// WebCodecs not offered, native ffmpeg and the rust ffmpeg feature as
/// probed by the caller, and the safe defaults selected.
pub open spec fn detect_capabilities_spec(native_ffmpeg: bool, rust_ffmpeg_feature: bool)
    -> RuntimeCapabilities {
    RuntimeCapabilities {
        webgl2: true,
        webgpu: false,
        webcodecs: false,
        native_ffmpeg,
        rust_ffmpeg_feature,
        selected_renderer: RendererBackend::Webgl2,
        selected_decode: DecodeBackend::Htmlvideo,
    }
}

/// Fresh capability snapshot from the caller's probe results.
pub fn detect_capabilities(native_ffmpeg: bool, rust_ffmpeg_feature: bool)
    -> (r: RuntimeCapabilities)
    ensures
        r == detect_capabilities_spec(native_ffmpeg, rust_ffmpeg_feature),
{
    RuntimeCapabilities {
        webgl2: true,
        webgpu: false,
        webcodecs: false,
        native_ffmpeg,
        rust_ffmpeg_feature,
        selected_renderer: RendererBackend::Webgl2,
        selected_decode: DecodeBackend::Htmlvideo,
    }
}

/// A refreshed snapshot: newly detected capabilities, the old selections
/// kept where still backed, and the safe default restored where not.
pub open spec fn refresh_spec(
    old_caps: RuntimeCapabilities,
    native_ffmpeg: bool,
    rust_ffmpeg_feature: bool,
) -> RuntimeCapabilities {
    let detected = detect_capabilities_spec(native_ffmpeg, rust_ffmpeg_feature);
    let renderer = if old_caps.selected_renderer == RendererBackend::Webgpu && !detected.webgpu {
        RendererBackend::Webgl2
    } else {
        old_caps.selected_renderer
    };
    let decode = if old_caps.selected_decode == DecodeBackend::NativeFfmpeg
        && !detected.native_ffmpeg {
        DecodeBackend::Htmlvideo
    } else if old_caps.selected_decode == DecodeBackend::Webcodecs && !detected.webcodecs {
        DecodeBackend::Htmlvideo
    } else {
        old_caps.selected_decode
    };
    RuntimeCapabilities { selected_renderer: renderer, selected_decode: decode, ..detected }
}

/// Media runtime: owns the capability snapshot.
#[derive(Debug)]
pub struct MediaRuntime {
    capabilities: RuntimeCapabilities,
}

impl View for MediaRuntime {
    type V = RuntimeCapabilities;

    closed spec fn view(&self) -> RuntimeCapabilities {
        self.capabilities
    }
}

impl MediaRuntime {
    /// Runtime starting from the given capability snapshot.
    pub fn new(capabilities: RuntimeCapabilities) -> (r: MediaRuntime)
        ensures
            r@ == capabilities,
    {
        MediaRuntime { capabilities }
    }

    /// Replaces the snapshot with freshly detected capabilities, keeping the
    /// current selections where still backed and falling back to WebGL2 and
    /// HTML video where not.
    pub fn refresh_capabilities(&mut self, native_ffmpeg: bool, rust_ffmpeg_feature: bool)
        -> (r: RuntimeCapabilities)
        ensures
            final(self)@ == refresh_spec(old(self)@, native_ffmpeg, rust_ffmpeg_feature),
            r == final(self)@,
    {
        let selected_renderer = self.capabilities.selected_renderer;
        let selected_decode = self.capabilities.selected_decode;

        let mut updated = detect_capabilities(native_ffmpeg, rust_ffmpeg_feature);
        updated.selected_renderer = selected_renderer;
        updated.selected_decode = selected_decode;

        if updated.selected_renderer == RendererBackend::Webgpu && !updated.webgpu {
            updated.selected_renderer = RendererBackend::Webgl2;
        }

        if updated.selected_decode == DecodeBackend::NativeFfmpeg && !updated.native_ffmpeg {
            updated.selected_decode = DecodeBackend::Htmlvideo;
        }

        if updated.selected_decode == DecodeBackend::Webcodecs && !updated.webcodecs {
            updated.selected_decode = DecodeBackend::Htmlvideo;
        }

        self.capabilities = updated;
        self.capabilities
    }

    /// Selects a rendering backend; WebGPU is refused while the platform
    /// does not offer it, and the snapshot is then left unchanged.
    pub fn set_renderer(&mut self, backend: RendererBackend)
        -> (r: Result<RuntimeCapabilities, MediaRuntimeError>)
        ensures
            (backend == RendererBackend::Webgpu && !old(self)@.webgpu) ==> {
                &&& r == Result::<RuntimeCapabilities, MediaRuntimeError>::Err(
                    MediaRuntimeError::WebGpuUnavailable,
                )
                &&& final(self)@ == old(self)@
            },
            !(backend == RendererBackend::Webgpu && !old(self)@.webgpu) ==> {
                &&& final(self)@ == (RuntimeCapabilities {
                    selected_renderer: backend,
                    ..old(self)@
                })
                &&& r == Result::<RuntimeCapabilities, MediaRuntimeError>::Ok(final(self)@)
            },
    {
        if backend == RendererBackend::Webgpu && !self.capabilities.webgpu {
            return Result::Err(MediaRuntimeError::WebGpuUnavailable);
        }
        self.capabilities.selected_renderer = backend;
        Result::Ok(self.capabilities)
    }

    /// Selects a decode backend; native ffmpeg and WebCodecs are refused
    /// while the platform does not offer them, and the snapshot is then left
    /// unchanged.
    pub fn set_decode(&mut self, backend: DecodeBackend)
        -> (r: Result<RuntimeCapabilities, MediaRuntimeError>)
        ensures
            (backend == DecodeBackend::NativeFfmpeg && !old(self)@.native_ffmpeg) ==> {
                &&& r == Result::<RuntimeCapabilities, MediaRuntimeError>::Err(
                    MediaRuntimeError::NativeFfmpegUnavailable,
                )
                &&& final(self)@ == old(self)@
            },
            (backend == DecodeBackend::Webcodecs && !old(self)@.webcodecs) ==> {
                &&& r == Result::<RuntimeCapabilities, MediaRuntimeError>::Err(
                    MediaRuntimeError::WebCodecsUnavailable,
                )
                &&& final(self)@ == old(self)@
            },
            (!(backend == DecodeBackend::NativeFfmpeg && !old(self)@.native_ffmpeg) && !(backend
                == DecodeBackend::Webcodecs && !old(self)@.webcodecs)) ==> {
                &&& final(self)@ == (RuntimeCapabilities {
                    selected_decode: backend,
                    ..old(self)@
                })
                &&& r == Result::<RuntimeCapabilities, MediaRuntimeError>::Ok(final(self)@)
            },
    {
        if backend == DecodeBackend::NativeFfmpeg && !self.capabilities.native_ffmpeg {
            return Result::Err(MediaRuntimeError::NativeFfmpegUnavailable);
        }
        if backend == DecodeBackend::Webcodecs && !self.capabilities.webcodecs {
            return Result::Err(MediaRuntimeError::WebCodecsUnavailable);
        }
        self.capabilities.selected_decode = backend;
        Result::Ok(self.capabilities)
    }
}

} // verus!
