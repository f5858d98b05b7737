//! The pages of the web interface that do not depend on the node's state.
use vstd::prelude::*;

verus! {

/// The style that all pages share.
pub const COMMON_CSS: &'static str = r#"
*{box-sizing:border-box;margin:0;padding:0}
body{font-family:'Segoe UI',system-ui,sans-serif;background:#0f1117;color:#e2e8f0;min-height:100vh;display:flex;align-items:flex-start;justify-content:center;padding:32px 16px}
.card{background:#1a1d27;border:1px solid #2d3148;border-radius:16px;width:100%;max-width:600px;overflow:hidden}
.hdr{background:linear-gradient(135deg,#1e2d5a,#2d1e5a);padding:24px 32px}
.hdr h1{font-size:20px;font-weight:700;color:#fff;letter-spacing:-.3px}
.hdr p{color:#94a3b8;font-size:13px;margin-top:4px}
.body{padding:28px 32px}
label{display:block;font-size:13px;font-weight:600;color:#94a3b8;margin-bottom:5px;margin-top:14px}
label:first-of-type{margin-top:0}
input[type=text],input[type=password],input[type=url],input[type=number],textarea,select{width:100%;padding:10px 12px;background:#0f1117;border:1px solid #2d3148;border-radius:8px;color:#e2e8f0;font-size:14px;outline:none;transition:border-color .2s;font-family:inherit}
textarea{resize:vertical;min-height:80px;font-size:12px;font-family:monospace}
input:focus,textarea:focus,select:focus{border-color:#6366f1}
select option{background:#1a1d27}
.hint{font-size:12px;color:#475569;margin-top:5px;line-height:1.5}
.hint a{color:#818cf8;text-decoration:none}
.ok-box{background:#0d2618;border:1px solid #166534;border-radius:8px;padding:11px 14px;color:#86efac;font-size:13px;margin-bottom:16px}
.err-box{background:#2d1515;border:1px solid #7f1d1d;border-radius:8px;padding:11px 14px;color:#fca5a5;font-size:13px;margin-bottom:16px}
.info-box{background:#0f172a;border:1px solid #1e40af;border-radius:8px;padding:11px 14px;font-size:12px;color:#93c5fd;line-height:1.6;margin-top:12px}
.btn{padding:10px 20px;border:none;border-radius:8px;font-size:14px;font-weight:700;cursor:pointer;font-family:inherit;transition:all .2s}
.btn-primary{background:linear-gradient(135deg,#6366f1,#8b5cf6);color:#fff}
.btn-primary:hover{opacity:.9;transform:translateY(-1px)}
.btn-primary:disabled{opacity:.4;cursor:not-allowed;transform:none}
.btn-secondary{background:#0f1117;border:1px solid #2d3148;color:#94a3b8}
.btn-secondary:hover{border-color:#6366f1;color:#e2e8f0}
.btn-danger{background:#7f1d1d;border:1px solid #991b1b;color:#fca5a5}
.btn-danger:hover{background:#991b1b}
.divider{height:1px;background:#2d3148;margin:20px 0}
code{background:#1e2740;padding:1px 5px;border-radius:4px;font-family:monospace;color:#a5b4fc;font-size:12px}
.hw-opts{display:flex;gap:8px;margin-bottom:10px}
.hw-opt{flex:1;padding:12px;background:#0f1117;border:2px solid #2d3148;border-radius:10px;cursor:pointer;transition:all .2s}
.hw-opt:hover,.hw-opt.sel{border-color:#6366f1}.hw-opt.sel{background:#1e1d3f}
.hw-opt-name{font-size:13px;font-weight:600;color:#e2e8f0}.hw-opt-desc{font-size:11px;color:#475569;margin-top:2px}
"#;

/// What an Agent ID is for.
pub const UNYT_INFO_COPY: &'static str = r#"<div class="info-box" style="margin-top:12px"><strong>HoloFuel compensation requires a Unyt Agent ID.</strong> Download the Unyt desktop app, sign in, and copy your Agent ID from the app settings. Setup can finish without it, but you will not receive HoloFuel payments until an Agent ID is saved.</div>"#;

// ---------------------------------------------------------------------------
// The login page
// ---------------------------------------------------------------------------

/// The login page up to the style.
pub const LOGIN_HEAD: &'static str = r#"<!DOCTYPE html><html lang="en"><head>
<meta charset="UTF-8"><meta name="viewport" content="width=device-width,initial-scale=1">
<title>Holo Node — Login</title>
<style>"#;

/// The login page between the style and the message.
pub const LOGIN_MIDDLE: &'static str = r#"body{align-items:center}.card{max-width:400px}.hdr{text-align:center}.icon{font-size:42px;margin-bottom:10px}form .btn{width:100%;margin-top:18px}</style></head><body>
<div class="card">
  <div class="hdr"><div class="icon">🜲</div><h1>Holo Node</h1><p>Enter your node password to continue.</p></div>
  <div class="body">"#;

/// The login page behind the message.
pub const LOGIN_END: &'static str = r#"
    <form method="POST" action="/login">
      <label for="pw">Password</label>
      <input type="password" id="pw" name="password" autofocus autocomplete="current-password">
      <button type="submit" class="btn btn-primary">Unlock →</button>
    </form>
    <p class="hint" style="text-align:center;margin-top:16px"><a href="/login" onclick="toggleRecovery();return false">Forgot Password?</a></p>
    <div id="recovery" style="display:none">
      <div class="divider"></div>
      <div class="err-box" id="rec-err" style="display:none"></div>
      <div class="ok-box" id="rec-ok" style="display:none">Password reset. Log in with your new password.</div>
      <label for="rec-phrase">Recovery seed phrase</label>
      <textarea id="rec-phrase" placeholder="Your 12 words, separated by spaces" autocomplete="off"></textarea>
      <label for="rec-new">New password</label>
      <input type="password" id="rec-new" autocomplete="new-password">
      <label for="rec-cfm">Confirm new password</label>
      <input type="password" id="rec-cfm" autocomplete="new-password">
      <button type="button" class="btn btn-primary" style="width:100%;margin-top:18px" onclick="recover()">Reset Password</button>
    </div>
  </div>
</div>
<script>
function raw(id){return document.getElementById(id).value;}
function toggleRecovery(){
  const e=document.getElementById('recovery');
  e.style.display=e.style.display==='none'?'block':'none';
}
function recErr(msg){
  const e=document.getElementById('rec-err');
  e.textContent=msg;
  e.style.display=msg?'block':'none';
}
async function recover(){
  const seedPhrase=raw('rec-phrase').trim().split(/\s+/).join(' ');
  const newPassword=raw('rec-new');
  document.getElementById('rec-ok').style.display='none';
  if(!seedPhrase||!newPassword)return recErr('Fill in the seed phrase and the new password.');
  if([...newPassword].length<8)return recErr('Password must be at least 8 characters.');
  if(/["\\]/.test(newPassword))return recErr('Password cannot contain quotes or backslashes.');
  if(newPassword!==raw('rec-cfm'))return recErr('New passwords do not match.');
  recErr('');
  try{
    const r=await fetch('/manage/auth/recover',{method:'POST',headers:{'Content-Type':'application/json'},body:JSON.stringify({seedPhrase,newPassword})});
    if(!r.ok){const j=await r.json();throw new Error(j.error||'Server error '+r.status);}
    ['rec-phrase','rec-new','rec-cfm'].forEach(id=>document.getElementById(id).value='');
    document.getElementById('rec-ok').style.display='block';
  }catch(e){recErr(e.message);}
}
</script>
</body></html>"#;

/// The message after a wrong password.
pub const LOGIN_ERROR: &'static str = r#"<div class="err-box">Incorrect password. Try again.</div>"#;

/// The login page, with or without the message that the password was wrong.
pub open spec fn login_page(error: bool) -> Seq<char> {
    LOGIN_HEAD@ + COMMON_CSS@ + LOGIN_MIDDLE@ + (if error {
        LOGIN_ERROR@
    } else {
        ""@
    }) + LOGIN_END@
}

/// The login page, with or without the message that the password was wrong.
pub fn build_login_html(error: bool) -> (r: String)
    ensures
        r@ == login_page(error),
{
    let mut out = LOGIN_HEAD.to_owned();
    out.append(COMMON_CSS);
    out.append(LOGIN_MIDDLE);
    out.append(
        if error {
            LOGIN_ERROR
        } else {
            ""
        },
    );
    out.append(LOGIN_END);
    out
}

// ---------------------------------------------------------------------------
// The setup page
// ---------------------------------------------------------------------------

/// The setup page up to the style.
pub const SETUP_HEAD: &'static str = r#"<!DOCTYPE html><html lang="en"><head>
<meta charset="UTF-8"><meta name="viewport" content="width=device-width,initial-scale=1">
<title>Holo Node Setup</title>
<style>
"#;

/// The setup page between the style and the state of the network.
pub const SETUP_STYLE: &'static str = r#"
.prog{height:3px;background:#0f1117}.prog-fill{height:100%;background:linear-gradient(90deg,#6366f1,#8b5cf6);transition:width .4s ease}
.step{display:none}.step.active{display:block}
.slbl{font-size:11px;font-weight:700;text-transform:uppercase;letter-spacing:.08em;color:#6366f1;margin-bottom:12px}
.stit{font-size:18px;font-weight:700;color:#f1f5f9;margin-bottom:5px}
.sdsc{font-size:13px;color:#64748b;margin-bottom:20px;line-height:1.6}
.brow{display:flex;gap:10px;margin-top:24px}.brow .btn{flex:1}
.spin{display:none;width:20px;height:20px;border:2px solid rgba(255,255,255,.3);border-top-color:#fff;border-radius:50%;animation:sp .6s linear infinite;margin:0 auto}
@keyframes sp{to{transform:rotate(360deg)}}
.suc{text-align:center;padding:24px 0}.suc h2{font-size:24px;font-weight:700;color:#86efac;margin-bottom:12px}.suc p{color:#64748b;font-size:14px;line-height:1.7}
.rt{width:100%;border-collapse:collapse;font-size:13px}.rt tr{border-bottom:1px solid #2d3148}.rt tr:last-child{border-bottom:none}
.rt td{padding:9px 0;vertical-align:top}.rt td:first-child{color:#64748b;width:130px;padding-right:12px}.rt td:last-child{color:#e2e8f0;font-weight:500;word-break:break-all}
</style></head><body>
<div class="card">
  <div class="hdr"><h1>🜲 Holo Node</h1><p>One-time setup — about 2 minutes.</p></div>
  <div class="prog"><div class="prog-fill" id="prog" style="width:0%"></div></div>
  <div class="body">
    "#;

/// The setup page between the state of the network and the Agent ID.
pub const SETUP_FORM: &'static str = r#"

    <!-- STEP 1: IDENTITY + SSH -->
    <div class="step active" id="s1">
      <div class="slbl">Step 1 of 2</div>
      <div class="stit">Node identity &amp; access</div>
      <div class="sdsc">Name your node, choose its password and optionally add your SSH public key for remote access.</div>
      <label>Node name *</label>
      <input type="text" id="nodeName" placeholder="e.g. alice, home-node-01" oninput="chkS1()">
      <div class="hint" id="nameHint">Lowercase letters, numbers and hyphens only. Used as hostname slug.</div>
      <label>Mode</label>
      <select id="hw" onchange="chkS1()">
        <option value="STANDARD">Standard EdgeNode — always-on Holochain peer</option>
        <option value="WIND_TUNNEL">Holochain Wind Tunnel — network stress-tester</option>
      </select>
      <label>Password *</label>
      <input type="password" id="password" autocomplete="new-password" oninput="chkS1()">
      <label>Confirm password *</label>
      <input type="password" id="passwordCfm" autocomplete="new-password" oninput="chkS1()">
      <div class="hint" id="pwHint">At least 8 characters. You will use it to log in to the management panel.</div>
      <label>SSH public key <span style="color:#475569;font-weight:400">(recommended)</span></label>
      <textarea id="sshKey" placeholder="ssh-ed25519 AAAA...&#10;Leave blank to add keys later in /manage"></textarea>
      <label>Unyt Agent ID <span style="color:#475569;font-weight:400">(optional)</span></label>
      <input type="text" id="unytAgentId" placeholder="Paste your Agent ID from the Unyt desktop app" oninput="chkS1()">
      "#;

/// The setup page behind the Agent ID.
pub const SETUP_END: &'static str = r#"
      <div class="brow"><button class="btn btn-primary" id="b1" onclick="gTo(2)" disabled>Review →</button></div>
    </div>

    <!-- STEP 2: REVIEW -->
    <div class="step" id="s2">
      <div class="slbl">Step 2 of 2</div>
      <div class="stit">Review &amp; initialize</div>
      <div class="sdsc">Check your settings, then start the node.</div>
      <table class="rt">
        <tr><td>Node Name</td><td id="rv-nn">—</td></tr>
        <tr><td>Mode</td><td id="rv-hw">—</td></tr>
        <tr><td>SSH Key</td><td id="rv-sk">—</td></tr>
        <tr><td>Unyt Agent ID</td><td id="rv-unyt">—</td></tr>
        <tr id="rv-wt-row" style="display:none"><td>Wind Tunnel hostname</td><td id="rv-wt">—</td></tr>
      </table>
      <div class="info-box" style="margin-top:16px">After initialization:<br>
        1. SSH access is configured for the <code>holo</code> user<br>
        2. Podman Quadlet services are registered with systemd<br>
        3. Your recovery seed phrase is shown once<br>
        4. You continue to the management panel</div>
      <div class="brow">
        <button class="btn btn-secondary" onclick="gTo(1)">← Back</button>
        <button class="btn btn-primary" id="bsub" onclick="doSubmit()">
          <span id="slbl-btn">Initialize Node</span>
          <div class="spin" id="spin"></div>
        </button>
      </div>
    </div>

    <!-- SUCCESS -->
    <div class="step" id="suc"><div class="suc"><div style="font-size:48px;margin-bottom:16px">🜲</div><h2>Node Initialized!</h2><p>This is your recovery seed phrase. It resets a forgotten password and will NOT be shown again. Write it down now.</p>
      <div id="seed" style="margin:20px 0;padding:16px;background:#0f1117;border:2px solid #6366f1;border-radius:10px;font-family:monospace;font-size:16px;line-height:1.8;color:#f1f5f9"></div>
      <label style="display:flex;gap:8px;justify-content:center"><input type="checkbox" id="seedSaved" onchange="document.getElementById('bdone').disabled=!this.checked"> I have saved my recovery seed phrase</label>
      <div class="brow"><button class="btn btn-primary" id="bdone" onclick="window.location.href='/manage'" disabled>Continue to the management panel →</button></div></div></div>
  </div>
</div>
<script>
function v(id){const e=document.getElementById(id);return e?e.value.trim():'';}

function raw(id){const e=document.getElementById(id);return e?e.value:'';}

function pwError(){
  const pw=raw('password');
  if([...pw].length<8)return 'Password must be at least 8 characters.';
  if(/["\\]/.test(pw))return 'Password cannot contain quotes or backslashes.';
  if(pw!==raw('passwordCfm'))return 'Passwords do not match.';
  return '';
}

function gTo(n){
  document.querySelectorAll('.step').forEach(s=>s.classList.remove('active'));
  document.getElementById(n===3?'suc':'s'+n).classList.add('active');
  document.getElementById('prog').style.width=(Math.min(n,2)/2*100)+'%';
  if(n===2)bRev();
  window.scrollTo(0,0);
}

function chkS1(){
  const name=v('nodeName');
  const agent=v('unytAgentId');
  const ok=/^[a-z0-9-]+$/.test(name);
  const pwErr=pwError();
  document.getElementById('b1').disabled=!ok||!!pwErr;
  document.getElementById('pwHint').textContent=raw('password')&&pwErr?pwErr:'At least 8 characters. You will use it to log in to the management panel.';
  const hint=document.getElementById('nameHint');
  if(!hint)return;
  if(!ok){hint.textContent='Lowercase letters, numbers and hyphens only. Used as hostname slug.';return;}
  const most=maxNameLen(agent);
  if(name.length>most){hint.textContent=v('hw')==='WIND_TUNNEL'?'In Wind Tunnel mode the node name must be at most '+most+' characters.':'With this Agent ID, node name must be at most '+most+' characters for Wind Tunnel client tracking.';document.getElementById('b1').disabled=true;return;}
  hint.textContent='Lowercase letters, numbers and hyphens only. Used as hostname slug.';
}

function maxNameLen(agent){
  if(v('hw')==='WIND_TUNNEL')return 50;
  const a=agent.trim();
  return Math.max(0,63-(1+(a?a.length:16)));
}

function wtHostname(name){
  return 'nomad-client-'+name;
}

function bRev(){
  const sk=v('sshKey');
  const agent=v('unytAgentId');
  const set=(id,t)=>{const e=document.getElementById(id);if(e)e.textContent=t;};
  set('rv-nn',v('nodeName')||'—');
  set('rv-sk',sk?sk.split(' ')[0]+' ••••':'(not provided)');
  set('rv-unyt',agent||'(not provided — compensation unavailable)');
  set('rv-hw',v('hw')==='WIND_TUNNEL'?'Wind Tunnel':'Standard EdgeNode');
  const wtRow=document.getElementById('rv-wt-row');
  if(v('hw')==='WIND_TUNNEL'){
    wtRow.style.display='';
    set('rv-wt',wtHostname(v('nodeName')));
  }else{wtRow.style.display='none';}
}

async function doSubmit(){
  const nodeName=v('nodeName');
  const agent=v('unytAgentId');
  if(!nodeName)return alert('Node name is required.');
  if(!/^[a-z0-9-]+$/.test(nodeName))return alert('Node name must be lowercase letters, numbers and hyphens only.');
  if(nodeName.length>maxNameLen(agent))return alert('Node name must be at most '+maxNameLen(agent)+' characters.');
  if(pwError())return alert(pwError());
  const btn=document.getElementById('bsub');
  btn.disabled=true;
  document.getElementById('slbl-btn').style.display='none';
  document.getElementById('spin').style.display='block';
  const p={
    nodeName,
    sshKey:v('sshKey'),
    unytAgentId:agent,
    hwMode:v('hw'),
    password:raw('password'),
    wifiSsid:v('wifiSsid'),
    wifiPass:v('wifiPass'),
  };
  try{
    const r=await fetch('/submit',{method:'POST',headers:{'Content-Type':'application/json'},body:JSON.stringify(p)});
    if(r.ok){document.getElementById('seed').textContent=(await r.json()).seed_phrase;gTo(3);}
    else{throw new Error('Server error '+r.status+': '+(await r.text()));}
  }catch(e){
    btn.disabled=false;
    document.getElementById('slbl-btn').style.display='inline';
    document.getElementById('spin').style.display='none';
    alert('Error: '+e.message);
  }
}
</script>
</body></html>"#;

/// The form for a wireless network.
pub const SETUP_WIFI: &'static str = r#"<div class="err-box">⚠ No Ethernet — connect to Wi-Fi to continue.</div>
<label>Wi-Fi SSID</label><input type="text" id="wifiSsid" placeholder="Network name">
<label>Wi-Fi Password</label><input type="password" id="wifiPass">"#;

/// The notice that the network is there.
pub const SETUP_ETHERNET: &'static str = r#"<div class="ok-box">✓ Ethernet connected — you're online.</div>"#;

/// The setup page; without a wired network it asks for a wireless one.
pub open spec fn setup_page(ap_mode: bool) -> Seq<char> {
    SETUP_HEAD@ + COMMON_CSS@ + SETUP_STYLE@ + (if ap_mode {
        SETUP_WIFI@
    } else {
        SETUP_ETHERNET@
    }) + SETUP_FORM@ + UNYT_INFO_COPY@ + SETUP_END@
}

/// The setup page; without a wired network it asks for a wireless one.
pub fn build_onboarding_html(ap_mode: bool) -> (r: String)
    ensures
        r@ == setup_page(ap_mode),
{
    let mut out = SETUP_HEAD.to_owned();
    out.append(COMMON_CSS);
    out.append(SETUP_STYLE);
    out.append(
        if ap_mode {
            SETUP_WIFI
        } else {
            SETUP_ETHERNET
        },
    );
    out.append(SETUP_FORM);
    out.append(UNYT_INFO_COPY);
    out.append(SETUP_END);
    out
}

} // verus!
