//! The static page served on `GET /`: a self-contained upload form the
//! uploading browser renders. The page is an opaque collaborator asset: the
//! server promises to serve it verbatim as `text/html`, so the contract
//! pins the text itself (the same on every call, never empty) and says
//! nothing else about it.

use vstd::prelude::*;

verus! {

/// The exact text of the page, fixed for the life of the process.
pub open spec fn html_page() -> Seq<char> {
    "<!DOCTYPE html>
<html lang=\"en\">
<head>
<meta charset=\"UTF-8\">
<meta name=\"viewport\" content=\"width=device-width, initial-scale=1.0\">
<title>Send files to this computer</title>
<style>
* { box-sizing: border-box; margin: 0; padding: 0; }
body { font-family: sans-serif; background: #667eea; min-height: 100vh;
       display: flex; flex-direction: column; align-items: center; padding: 20px; }
.card { background: white; border-radius: 16px; padding: 30px; width: 100%;
        max-width: 400px; }
h1 { color: #333; font-size: 24px; text-align: center; margin-bottom: 10px; }
.subtitle { color: #666; font-size: 14px; text-align: center; margin-bottom: 24px; }
.drop { border: 3px dashed #667eea; border-radius: 12px; padding: 30px 20px;
        text-align: center; margin-bottom: 20px; background: #f8f9ff; cursor: pointer; }
.drop:hover { border-color: #764ba2; }
.file-info { color: #666; font-size: 14px; margin-top: 10px; }
.btn { width: 100%; padding: 16px; background: #667eea; color: white; border: none;
       border-radius: 8px; font-size: 16px; cursor: pointer; }
.btn:disabled { opacity: 0.6; cursor: not-allowed; }
.status { text-align: center; margin-top: 16px; padding: 12px; border-radius: 8px;
          font-size: 14px; display: none; }
.status.success { background: #d4edda; color: #155724; }
.status.error { background: #f8d7da; color: #721c24; }
input[type=\"file\"] { display: none; }
</style>
</head>
<body>
<div class=\"card\">
<h1>Send files</h1>
<p class=\"subtitle\">Upload files to this computer</p>
<div class=\"drop\" onclick=\"document.getElementById('fileInput').click()\">
<div>Click to choose files</div>
<div class=\"file-info\" id=\"fileInfo\">Multiple files supported</div>
</div>
<input type=\"file\" id=\"fileInput\" multiple>
<button class=\"btn\" id=\"uploadBtn\" onclick=\"uploadFiles()\" disabled>Upload</button>
<div class=\"status\" id=\"status\"></div>
</div>
<script>
let selected = [];
document.getElementById('fileInput').addEventListener('change', function(e) {
  selected = Array.from(e.target.files);
  update();
});
function update() {
  const info = document.getElementById('fileInfo');
  const btn = document.getElementById('uploadBtn');
  if (selected.length === 0) {
    info.textContent = 'Multiple files supported';
    btn.disabled = true;
    return;
  }
  info.textContent = selected.length + ' file(s) selected';
  btn.disabled = false;
}
function uploadFiles() {
  if (selected.length === 0) return;
  const btn = document.getElementById('uploadBtn');
  const status = document.getElementById('status');
  btn.disabled = true;
  status.style.display = 'none';
  const data = new FormData();
  selected.forEach(f => data.append('files', f));
  const xhr = new XMLHttpRequest();
  xhr.addEventListener('load', function() {
    if (xhr.status === 200) {
      const reply = JSON.parse(xhr.responseText);
      status.textContent = reply.message;
      status.className = 'status success';
    } else {
      status.textContent = 'Upload failed';
      status.className = 'status error';
    }
    status.style.display = 'block';
    selected = [];
    update();
  });
  xhr.addEventListener('error', function() {
    status.textContent = 'Network error';
    status.className = 'status error';
    status.style.display = 'block';
    btn.disabled = false;
  });
  xhr.open('POST', '/upload');
  xhr.send(data);
}
</script>
</body>
</html>"@
}

/// The HTML page served verbatim on `GET /`.
pub fn get_html_template() -> (r: &'static str)
    ensures
        r@ == html_page(),
        r@.len() > 0,
{
    proof {
        reveal_strlit("<!DOCTYPE html>
<html lang=\"en\">
<head>
<meta charset=\"UTF-8\">
<meta name=\"viewport\" content=\"width=device-width, initial-scale=1.0\">
<title>Send files to this computer</title>
<style>
* { box-sizing: border-box; margin: 0; padding: 0; }
body { font-family: sans-serif; background: #667eea; min-height: 100vh;
       display: flex; flex-direction: column; align-items: center; padding: 20px; }
.card { background: white; border-radius: 16px; padding: 30px; width: 100%;
        max-width: 400px; }
h1 { color: #333; font-size: 24px; text-align: center; margin-bottom: 10px; }
.subtitle { color: #666; font-size: 14px; text-align: center; margin-bottom: 24px; }
.drop { border: 3px dashed #667eea; border-radius: 12px; padding: 30px 20px;
        text-align: center; margin-bottom: 20px; background: #f8f9ff; cursor: pointer; }
.drop:hover { border-color: #764ba2; }
.file-info { color: #666; font-size: 14px; margin-top: 10px; }
.btn { width: 100%; padding: 16px; background: #667eea; color: white; border: none;
       border-radius: 8px; font-size: 16px; cursor: pointer; }
.btn:disabled { opacity: 0.6; cursor: not-allowed; }
.status { text-align: center; margin-top: 16px; padding: 12px; border-radius: 8px;
          font-size: 14px; display: none; }
.status.success { background: #d4edda; color: #155724; }
.status.error { background: #f8d7da; color: #721c24; }
input[type=\"file\"] { display: none; }
</style>
</head>
<body>
<div class=\"card\">
<h1>Send files</h1>
<p class=\"subtitle\">Upload files to this computer</p>
<div class=\"drop\" onclick=\"document.getElementById('fileInput').click()\">
<div>Click to choose files</div>
<div class=\"file-info\" id=\"fileInfo\">Multiple files supported</div>
</div>
<input type=\"file\" id=\"fileInput\" multiple>
<button class=\"btn\" id=\"uploadBtn\" onclick=\"uploadFiles()\" disabled>Upload</button>
<div class=\"status\" id=\"status\"></div>
</div>
<script>
let selected = [];
document.getElementById('fileInput').addEventListener('change', function(e) {
  selected = Array.from(e.target.files);
  update();
});
function update() {
  const info = document.getElementById('fileInfo');
  const btn = document.getElementById('uploadBtn');
  if (selected.length === 0) {
    info.textContent = 'Multiple files supported';
    btn.disabled = true;
    return;
  }
  info.textContent = selected.length + ' file(s) selected';
  btn.disabled = false;
}
function uploadFiles() {
  if (selected.length === 0) return;
  const btn = document.getElementById('uploadBtn');
  const status = document.getElementById('status');
  btn.disabled = true;
  status.style.display = 'none';
  const data = new FormData();
  selected.forEach(f => data.append('files', f));
  const xhr = new XMLHttpRequest();
  xhr.addEventListener('load', function() {
    if (xhr.status === 200) {
      const reply = JSON.parse(xhr.responseText);
      status.textContent = reply.message;
      status.className = 'status success';
    } else {
      status.textContent = 'Upload failed';
      status.className = 'status error';
    }
    status.style.display = 'block';
    selected = [];
    update();
  });
  xhr.addEventListener('error', function() {
    status.textContent = 'Network error';
    status.className = 'status error';
    status.style.display = 'block';
    btn.disabled = false;
  });
  xhr.open('POST', '/upload');
  xhr.send(data);
}
</script>
</body>
</html>");
    }
    "<!DOCTYPE html>
<html lang=\"en\">
<head>
<meta charset=\"UTF-8\">
<meta name=\"viewport\" content=\"width=device-width, initial-scale=1.0\">
<title>Send files to this computer</title>
<style>
* { box-sizing: border-box; margin: 0; padding: 0; }
body { font-family: sans-serif; background: #667eea; min-height: 100vh;
       display: flex; flex-direction: column; align-items: center; padding: 20px; }
.card { background: white; border-radius: 16px; padding: 30px; width: 100%;
        max-width: 400px; }
h1 { color: #333; font-size: 24px; text-align: center; margin-bottom: 10px; }
.subtitle { color: #666; font-size: 14px; text-align: center; margin-bottom: 24px; }
.drop { border: 3px dashed #667eea; border-radius: 12px; padding: 30px 20px;
        text-align: center; margin-bottom: 20px; background: #f8f9ff; cursor: pointer; }
.drop:hover { border-color: #764ba2; }
.file-info { color: #666; font-size: 14px; margin-top: 10px; }
.btn { width: 100%; padding: 16px; background: #667eea; color: white; border: none;
       border-radius: 8px; font-size: 16px; cursor: pointer; }
.btn:disabled { opacity: 0.6; cursor: not-allowed; }
.status { text-align: center; margin-top: 16px; padding: 12px; border-radius: 8px;
          font-size: 14px; display: none; }
.status.success { background: #d4edda; color: #155724; }
.status.error { background: #f8d7da; color: #721c24; }
input[type=\"file\"] { display: none; }
</style>
</head>
<body>
<div class=\"card\">
<h1>Send files</h1>
<p class=\"subtitle\">Upload files to this computer</p>
<div class=\"drop\" onclick=\"document.getElementById('fileInput').click()\">
<div>Click to choose files</div>
<div class=\"file-info\" id=\"fileInfo\">Multiple files supported</div>
</div>
<input type=\"file\" id=\"fileInput\" multiple>
<button class=\"btn\" id=\"uploadBtn\" onclick=\"uploadFiles()\" disabled>Upload</button>
<div class=\"status\" id=\"status\"></div>
</div>
<script>
let selected = [];
document.getElementById('fileInput').addEventListener('change', function(e) {
  selected = Array.from(e.target.files);
  update();
});
function update() {
  const info = document.getElementById('fileInfo');
  const btn = document.getElementById('uploadBtn');
  if (selected.length === 0) {
    info.textContent = 'Multiple files supported';
    btn.disabled = true;
    return;
  }
  info.textContent = selected.length + ' file(s) selected';
  btn.disabled = false;
}
function uploadFiles() {
  if (selected.length === 0) return;
  const btn = document.getElementById('uploadBtn');
  const status = document.getElementById('status');
  btn.disabled = true;
  status.style.display = 'none';
  const data = new FormData();
  selected.forEach(f => data.append('files', f));
  const xhr = new XMLHttpRequest();
  xhr.addEventListener('load', function() {
    if (xhr.status === 200) {
      const reply = JSON.parse(xhr.responseText);
      status.textContent = reply.message;
      status.className = 'status success';
    } else {
      status.textContent = 'Upload failed';
      status.className = 'status error';
    }
    status.style.display = 'block';
    selected = [];
    update();
  });
  xhr.addEventListener('error', function() {
    status.textContent = 'Network error';
    status.className = 'status error';
    status.style.display = 'block';
    btn.disabled = false;
  });
  xhr.open('POST', '/upload');
  xhr.send(data);
}
</script>
</body>
</html>"
}

} // verus!
