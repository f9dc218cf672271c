//! The pages of the web companion.

use vstd::prelude::*;

verus! {

/// The landing page.
pub const INDEX_HTML: &'static str = r#"<!DOCTYPE html>
<html><head><title>picam-rs</title><style>
html,body{margin:0;background:#000;color:#d04040;font-family:'IBM Plex Mono',monospace;height:100%;display:flex;align-items:center;justify-content:center;flex-direction:column;gap:24px;}
a{color:#ff3030;text-decoration:none;border:1px solid #d04040;padding:12px 20px;border-radius:6px;font-size:18px;}
a:active{background:#1a0606;}
</style></head>
<body>
<h1 style="font-weight:400;font-size:24px;">picam-rs</h1>
<a href="/control">▸ Control Panel</a>
<a href="/stream">▸ Raw MJPEG Stream</a>
</body></html>"#;

/// The control panel: preview, capture, recording, gallery.
pub const CONTROL_HTML: &'static str = r##"<!DOCTYPE html>
<html lang="en">
<head>
<meta charset="utf-8">
<meta name="viewport" content="width=device-width, initial-scale=1, user-scalable=no, viewport-fit=cover">
<meta name="theme-color" content="#000000">
<meta name="mobile-web-app-capable" content="yes">
<meta name="apple-mobile-web-app-capable" content="yes">
<meta name="apple-mobile-web-app-status-bar-style" content="black">
<title>picam control</title>
<link rel="preconnect" href="https://fonts.googleapis.com">
<link rel="preconnect" href="https://fonts.gstatic.com" crossorigin>
<link href="https://fonts.googleapis.com/css2?family=IBM+Plex+Mono:wght@400;500;700&display=swap" rel="stylesheet">
<style>
:root {
  --bg:#000; --surface:#1a0606; --overlay:rgba(20,0,0,0.85);
  --accent:#ff3030; --warn:#c04020; --info:#802020;
  --text:#d04040; --dim:#803030; --border:#2a0808;
}
*{box-sizing:border-box;margin:0;padding:0;}
html,body{background:var(--bg);color:var(--text);font-family:'IBM Plex Mono','Courier New',monospace;height:100%;width:100%;overflow:hidden;user-select:none;-webkit-tap-highlight-color:transparent;}
body{display:flex;flex-direction:column;padding:env(safe-area-inset-top) env(safe-area-inset-right) env(safe-area-inset-bottom) env(safe-area-inset-left);font-variant-numeric:tabular-nums;}
.status{display:flex;justify-content:space-between;padding:8px 14px;font-size:12px;font-weight:500;border-bottom:1px solid var(--border);color:var(--dim);flex-shrink:0;}
.status .item{display:flex;gap:6px;align-items:center;}
.status .item .dot{color:var(--accent);font-size:10px;}
.status .recording .dot{color:var(--accent);}
.status .idle .dot{color:var(--dim);}
.preview{flex:1;background:#000;display:flex;align-items:center;justify-content:center;min-height:0;position:relative;}
.preview img{max-width:100%;max-height:100%;object-fit:contain;}
.preview .offline{position:absolute;color:var(--dim);font-size:14px;}
.mode-bar{display:flex;gap:6px;padding:8px;border-top:1px solid var(--border);flex-shrink:0;}
.mode-btn{flex:1;height:48px;background:transparent;color:var(--text);border:1px solid var(--border);border-radius:6px;font-family:inherit;font-size:14px;font-weight:500;cursor:pointer;touch-action:manipulation;}
.mode-btn.active{background:var(--info);font-weight:700;}
.mode-btn:active{background:var(--surface);}
.capture-zone{padding:14px;display:flex;justify-content:center;flex-shrink:0;}
.capture-btn{width:96px;height:96px;border-radius:50%;background:var(--info);border:2px solid var(--text);color:var(--text);font-family:inherit;font-size:14px;font-weight:700;cursor:pointer;touch-action:manipulation;transition:transform 80ms ease-out, background 100ms;}
.capture-btn:active{transform:scale(0.96);}
.capture-btn.recording{background:var(--accent);}
.capture-btn:disabled{opacity:0.5;}
.nav{display:flex;gap:6px;padding:8px 8px 12px;border-top:1px solid var(--border);flex-shrink:0;}
.nav-btn{flex:1;height:52px;background:transparent;color:var(--text);border:1px solid var(--border);border-radius:6px;font-family:inherit;font-size:13px;font-weight:500;cursor:pointer;touch-action:manipulation;}
.nav-btn:active{background:var(--surface);}
.drawer{position:fixed;inset:0;background:var(--overlay);display:none;flex-direction:column;justify-content:flex-end;z-index:10;}
.drawer.open{display:flex;}
.drawer-content{background:var(--bg);border-top:1px solid var(--text);border-radius:12px 12px 0 0;padding:16px;max-height:85vh;overflow-y:auto;display:flex;flex-direction:column;gap:12px;}
.drawer-content h2{font-size:14px;font-weight:700;color:var(--text);}
.drawer-content p{font-size:12px;color:var(--dim);line-height:1.6;}
.drawer-close{width:100%;height:48px;background:var(--surface);color:var(--text);border:1px solid var(--border);border-radius:6px;font-family:inherit;font-size:14px;font-weight:500;cursor:pointer;flex-shrink:0;}
.gallery-grid{display:grid;grid-template-columns:repeat(auto-fill,minmax(120px,1fr));gap:8px;}
.gallery-item{aspect-ratio:1;background:var(--surface);border:1px solid var(--border);border-radius:6px;overflow:hidden;position:relative;cursor:pointer;}
.gallery-item img{width:100%;height:100%;object-fit:cover;display:block;}
.gallery-item .video-badge{position:absolute;top:4px;right:4px;background:var(--accent);color:var(--text);font-size:10px;font-weight:700;padding:2px 5px;border-radius:3px;}
.gallery-item .name{position:absolute;bottom:0;left:0;right:0;background:var(--overlay);color:var(--text);font-size:10px;padding:3px 6px;white-space:nowrap;overflow:hidden;text-overflow:ellipsis;}
.gallery-empty{color:var(--dim);font-size:13px;text-align:center;padding:32px;}
.lightbox{position:fixed;inset:0;background:#000;display:none;align-items:center;justify-content:center;z-index:20;width:100vw;height:100vh;}
.lightbox.open{display:flex;}
.lightbox img,.lightbox video{max-width:100vw;max-height:100vh;width:auto;height:auto;display:block;}
.lightbox .close{position:absolute;top:env(safe-area-inset-top,8px);right:8px;background:var(--surface);color:var(--text);border:1px solid var(--text);border-radius:6px;font-family:inherit;font-size:13px;padding:10px 14px;cursor:pointer;z-index:30;}
.lightbox .delete{position:absolute;top:env(safe-area-inset-top,8px);left:8px;background:var(--accent);color:var(--text);border:1px solid var(--text);border-radius:6px;font-family:inherit;font-size:13px;padding:10px 14px;cursor:pointer;z-index:30;}
.lightbox .caption{position:absolute;bottom:env(safe-area-inset-bottom,8px);left:8px;right:8px;background:var(--overlay);color:var(--text);font-size:11px;padding:6px 8px;border-radius:4px;text-align:center;z-index:30;}
@media (orientation:landscape) and (min-width:720px){
  body{flex-direction:row;flex-wrap:wrap;}
  .status{width:100%;}
  .preview{flex:1 0 60%;min-width:0;}
  .right{flex:1 0 40%;display:flex;flex-direction:column;border-left:1px solid var(--border);}
  .mode-bar,.capture-zone,.nav{border-top:1px solid var(--border);}
  .capture-btn{width:112px;height:112px;}
}
</style>
</head>
<body>
<div class="status idle" id="status-bar">
  <div class="item" id="rec-item"><span class="dot">●</span><span id="rec-text">idle</span></div>
  <div class="item"><span id="free-text">--</span> free</div>
  <div class="item"><span id="preview-text">live</span></div>
</div>
<div class="preview">
  <img id="preview-img" src="/stream" alt="preview">
  <div class="offline" id="offline" style="display:none">no preview</div>
</div>
<div class="right">
<div class="mode-bar">
  <button class="mode-btn active" data-mode="photo">Photo</button>
  <button class="mode-btn" data-mode="video">Video</button>
  <button class="mode-btn" data-mode="timelapse">Timelapse</button>
</div>
<div class="capture-zone">
  <button class="capture-btn" id="capture-btn">Capture</button>
</div>
<div class="nav">
  <button class="nav-btn" id="settings-btn">Settings</button>
  <button class="nav-btn" id="gallery-btn">Gallery</button>
</div>
</div>
<div class="drawer" id="drawer">
  <div class="drawer-content">
    <h2 id="drawer-title">Settings</h2>
    <div id="drawer-body"></div>
    <button class="drawer-close" id="drawer-close">Close</button>
  </div>
</div>
<div class="lightbox" id="lightbox">
  <button class="delete" id="lightbox-delete">Delete</button>
  <button class="close" id="lightbox-close">Close</button>
  <div id="lightbox-media-container" style="display:flex;align-items:center;justify-content:center;width:100%;height:100%;"></div>
  <div class="caption" id="lightbox-caption"></div>
</div>
<script>
let mode = 'photo';
let recording = false;
let busy = false;

const $ = (id) => document.getElementById(id);

function setCaptureLabel() {
  const btn = $('capture-btn');
  if (mode === 'photo') btn.textContent = 'Capture';
  else if (mode === 'video') btn.textContent = recording ? 'Stop' : 'Record';
  else btn.textContent = 'Timelapse';  // not wired yet
  btn.classList.toggle('recording', recording);
  btn.disabled = busy || (mode === 'timelapse');
}

document.querySelectorAll('.mode-btn').forEach(b => {
  b.addEventListener('click', () => {
    mode = b.dataset.mode;
    document.querySelectorAll('.mode-btn').forEach(x => x.classList.toggle('active', x.dataset.mode === mode));
    setCaptureLabel();
  });
});

$('capture-btn').addEventListener('click', async () => {
  if (busy) return;
  busy = true;
  setCaptureLabel();
  try {
    if (mode === 'photo') {
      await fetch('/api/capture', { method: 'POST' });
    } else if (mode === 'video') {
      const ep = recording ? '/api/record/stop' : '/api/record/start';
      await fetch(ep, { method: 'POST' });
    }
  } catch (e) { /* silent — state poll will reflect reality */ }
  busy = false;
  await pollState();
});

function setDrawerHTML(title, html) {
  $('drawer-title').textContent = title;
  $('drawer-body').innerHTML = html;
  $('drawer').classList.add('open');
}

$('settings-btn').addEventListener('click', () => {
  setDrawerHTML('Settings',
    '<p>Adjust ISO, shutter, AWB, resolution, etc. on the Pi touchscreen — they apply to all capture surfaces. Web-side settings coming soon.</p>'
  );
});

$('gallery-btn').addEventListener('click', async () => {
  setDrawerHTML('Gallery', '<p>Loading…</p>');
  try {
    const r = await fetch('/api/gallery', { cache: 'no-cache' });
    const items = await r.json();
    if (!items.length) {
      setDrawerHTML('Gallery', '<div class="gallery-empty">No photos or videos yet.</div>');
      return;
    }
    const grid = items.map(item => {
      // For videos, use the .thumb.jpg sidecar; for photos, the file itself.
      const thumbPath = item.is_video
        ? item.path.replace(/\.(mp4|h264|mkv)$/i, '.thumb.jpg')
        : item.path;
      const thumbUrl  = '/api/gallery/file?path=' + encodeURIComponent(thumbPath);
      const fullUrl   = '/api/gallery/file?path=' + encodeURIComponent(item.path);
      const badge     = item.is_video ? '<div class="video-badge">VIDEO</div>' : '';
      return '<div class="gallery-item" data-full="' + fullUrl + '" data-path="' + encodeURIComponent(item.path) + '" data-name="' + item.name + '" data-video="' + item.is_video + '">'
        + '<img src="' + thumbUrl + '" alt="' + item.name + '" loading="lazy">'
        + badge
        + '<div class="name">' + item.name + '</div>'
        + '</div>';
    }).join('');
    setDrawerHTML('Gallery (' + items.length + ')', '<div class="gallery-grid">' + grid + '</div>');

    document.querySelectorAll('.gallery-item').forEach(el => {
      el.addEventListener('click', () => {
        openLightbox(el.dataset.full, el.dataset.name, el.dataset.video === 'true', el.dataset.path);
      });
    });
  } catch (e) {
    setDrawerHTML('Gallery', '<p>Failed to load gallery: ' + e.message + '</p>');
  }
});

$('drawer-close').addEventListener('click', () => $('drawer').classList.remove('open'));
$('drawer').addEventListener('click', (e) => { if (e.target === $('drawer')) $('drawer').classList.remove('open'); });

// Lightbox state — tracks the current item for the Delete button
let currentLightboxPath = null;

function openLightbox(fullUrl, name, isVideo, encodedPath) {
  const c = $('lightbox-media-container');
  c.innerHTML = '';
  if (isVideo) {
    const v = document.createElement('video');
    v.controls = true;
    v.autoplay = true;
    v.playsInline = true;       // iOS Safari: stay inline, no native fullscreen takeover
    v.src = fullUrl;
    c.appendChild(v);
  } else {
    const img = document.createElement('img');
    img.src = fullUrl;
    img.alt = name;
    c.appendChild(img);
  }
  $('lightbox-caption').textContent = name;
  currentLightboxPath = encodedPath;
  $('lightbox').classList.add('open');

  // Request true browser fullscreen — gets rid of address bar, fills the
  // device screen, respects rotation natively via the browser. Best-effort:
  // iOS Safari only supports this on <video> elements (handled below).
  const root = document.documentElement;
  if (root.requestFullscreen) {
    root.requestFullscreen({ navigationUI: 'hide' }).catch(() => {});
  } else if (root.webkitRequestFullscreen) {
    root.webkitRequestFullscreen();
  }
}

function closeLightbox() {
  $('lightbox').classList.remove('open');
  $('lightbox-media-container').innerHTML = '';
  currentLightboxPath = null;
  if (document.fullscreenElement) document.exitFullscreen().catch(() => {});
  else if (document.webkitFullscreenElement) document.webkitExitFullscreen();
}

$('lightbox-close').addEventListener('click', closeLightbox);
$('lightbox').addEventListener('click', (e) => {
  // Tap on the dark background (not on the image/buttons) closes too
  if (e.target === $('lightbox') || e.target.id === 'lightbox-media-container') closeLightbox();
});

$('lightbox-delete').addEventListener('click', async () => {
  if (!currentLightboxPath) return;
  if (!confirm('Delete this file? This cannot be undone.')) return;
  try {
    const r = await fetch('/api/gallery/file?path=' + currentLightboxPath, { method: 'DELETE' });
    if (!r.ok) throw new Error('delete ' + r.status);
    closeLightbox();
    // Refresh the gallery drawer
    $('gallery-btn').click();
  } catch (e) {
    alert('Delete failed: ' + e.message);
  }
});

async function pollState() {
  try {
    const r = await fetch('/api/state', { cache: 'no-cache' });
    if (!r.ok) throw new Error('state ' + r.status);
    const s = await r.json();
    recording = !!s.recording;
    $('rec-text').textContent = recording ? ('REC ' + s.duration) : 'idle';
    $('status-bar').classList.toggle('recording', recording);
    $('status-bar').classList.toggle('idle', !recording);
    $('free-text').textContent = s.free_space;
    $('preview-text').textContent = s.preview ? 'live' : 'off';
    $('offline').style.display = s.preview ? 'none' : 'block';
    setCaptureLabel();
  } catch (e) { /* connection blip — show stale until next tick */ }
}

setInterval(pollState, 1000);
pollState();

// Reload the preview img on connection loss (some browsers stall the multipart stream)
$('preview-img').addEventListener('error', () => {
  setTimeout(() => { $('preview-img').src = '/stream?t=' + Date.now(); }, 1000);
});
</script>
</body>
</html>"##;

} // verus!
