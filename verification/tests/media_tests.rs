use beatgrid::media::DecodeBackend;
use beatgrid::media::MediaRuntime;
use beatgrid::media::MediaRuntimeError;
use beatgrid::media::RendererBackend;
use beatgrid::media::RuntimeCapabilities;
use beatgrid::media::detect_capabilities;

#[test]
fn detect_has_default_webgl2() {
    let caps = detect_capabilities(false, false);
    assert!(caps.webgl2);
    assert_eq!(caps.selected_renderer, RendererBackend::Webgl2);
}

#[test]
fn set_decode_rejects_unavailable_native_ffmpeg() {
    let mut runtime = MediaRuntime::new(RuntimeCapabilities {
        webgl2: true,
        webgpu: false,
        webcodecs: false,
        native_ffmpeg: false,
        rust_ffmpeg_feature: false,
        selected_renderer: RendererBackend::Webgl2,
        selected_decode: DecodeBackend::Htmlvideo,
    });

    let result = runtime.set_decode(DecodeBackend::NativeFfmpeg);
    assert!(matches!(result, Err(MediaRuntimeError::NativeFfmpegUnavailable)));
}

#[test]
fn set_decode_rejects_unavailable_webcodecs() {
    let mut runtime = MediaRuntime::new(detect_capabilities(false, false));
    let result = runtime.set_decode(DecodeBackend::Webcodecs);
    assert!(matches!(result, Err(MediaRuntimeError::WebCodecsUnavailable)));
}

#[test]
fn set_decode_accepts_available_backend() {
    let mut runtime = MediaRuntime::new(detect_capabilities(true, false));
    let caps = runtime.set_decode(DecodeBackend::NativeFfmpeg).unwrap();
    assert_eq!(caps.selected_decode, DecodeBackend::NativeFfmpeg);
}

#[test]
fn set_renderer_rejects_unavailable_webgpu() {
    let mut runtime = MediaRuntime::new(detect_capabilities(false, false));
    let result = runtime.set_renderer(RendererBackend::Webgpu);
    assert!(matches!(result, Err(MediaRuntimeError::WebGpuUnavailable)));
}

#[test]
fn refresh_falls_back_when_capability_disappears() {
    let mut runtime = MediaRuntime::new(RuntimeCapabilities {
        webgl2: true,
        webgpu: false,
        webcodecs: false,
        native_ffmpeg: true,
        rust_ffmpeg_feature: false,
        selected_renderer: RendererBackend::Webgl2,
        selected_decode: DecodeBackend::NativeFfmpeg,
    });
    // The new probe no longer finds ffmpeg: decode falls back to HTML video.
    let caps = runtime.refresh_capabilities(false, false);
    assert_eq!(caps.selected_decode, DecodeBackend::Htmlvideo);
    assert!(!caps.native_ffmpeg);
}

#[test]
fn refresh_keeps_backed_selection() {
    let mut runtime = MediaRuntime::new(detect_capabilities(true, true));
    runtime.set_decode(DecodeBackend::NativeFfmpeg).unwrap();
    let caps = runtime.refresh_capabilities(true, true);
    assert_eq!(caps.selected_decode, DecodeBackend::NativeFfmpeg);
    assert!(caps.rust_ffmpeg_feature);
}
