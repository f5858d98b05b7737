//! The management page.
use vstd::prelude::*;
use vstd::utf8::*;

use crate::calendar::{fmt_uptime, uptime_text};
use crate::config::{build_wt_hostname, wt_hostname};
use crate::escape::{escape, escaped, html_escape, Escape};
use crate::number::{dec, push_dec};
use crate::pages::{COMMON_CSS, UNYT_INFO_COPY};
use crate::quadlet::{config_at, config_of, Site, SiteView};
use crate::split::{words, words_of};
use crate::ssh::{keys_of, read_ssh_keys};
use crate::state::{AppState, StateView, WIND_TUNNEL};
use crate::text::{
    byte_count, byte_len, bytes_before, chars_of, is_blank, split_at_byte, string_of, strings,
    texts,
};
use crate::update::VERSION;
use crate::url::{status_url, wt_status_url};

verus! {

// ---------------------------------------------------------------------------
// The fixed parts of the page
// ---------------------------------------------------------------------------

/// The page up to the title.
pub const TO_TITLE: &'static str = r#"<!DOCTYPE html><html lang="en"><head>
<meta charset="UTF-8"><meta name="viewport" content="width=device-width,initial-scale=1">
<title>Holo Node — "#;

/// The page up to the style.
pub const TO_STYLE: &'static str = r#"</title>
<style>
"#;

/// The page up to the heading.
pub const TO_HEADING: &'static str = r#"
.toast{position:fixed;bottom:24px;right:24px;padding:10px 16px;border-radius:8px;font-size:13px;font-weight:600;opacity:0;transform:translateY(8px);transition:all .3s;pointer-events:none;z-index:999}
.toast.ok{background:#0d2618;border:1px solid #166534;color:#86efac}
.toast.err{background:#2d1515;border:1px solid #7f1d1d;color:#fca5a5}
.toast.vis{opacity:1;transform:none}
.page-hdr{background:linear-gradient(135deg,#1e2d5a,#2d1e5a);padding:20px 32px;display:flex;align-items:center;justify-content:space-between}
.page-hdr h1{font-size:18px;font-weight:700;color:#fff}
.page-hdr p{color:#94a3b8;font-size:12px;margin-top:2px}
.logout{background:transparent;border:1px solid #3d4468;color:#94a3b8;padding:6px 14px;border-radius:6px;cursor:pointer;font-size:12px;font-family:inherit}
.logout:hover{border-color:#6366f1;color:#e2e8f0}
.info-row{display:flex;flex-wrap:wrap;gap:8px;padding:14px 32px;background:#13162a;border-bottom:1px solid #2d3148}
.info-item{font-size:12px;color:#64748b;display:flex;align-items:center;gap:6px}
.info-item span{background:#1a1d27;border:1px solid #2d3148;border-radius:6px;padding:2px 8px;color:#94a3b8;font-size:12px}
.section{border-bottom:1px solid #2d3148}
.section:last-child{border-bottom:none}
.section-hdr{padding:16px 32px;cursor:pointer;display:flex;align-items:center;justify-content:space-between;user-select:none}
.section-hdr:hover{background:#1e2030}
.section-title{font-size:14px;font-weight:600;color:#e2e8f0;display:flex;align-items:center;gap:8px}
.section-badge{font-size:11px;font-weight:700;padding:2px 8px;border-radius:10px}
.badge-green{background:#0d2618;border:1px solid #166534;color:#86efac}
.badge-gray{background:#1a1d27;border:1px solid #3d4468;color:#64748b}
.section-arrow{color:#475569;font-size:12px}
.section-body{padding:4px 32px 20px;display:none}
.key-row{display:flex;align-items:center;gap:8px;padding:8px 0;border-bottom:1px solid #1e2030}
.key-row:last-child{border-bottom:none}
.key-type{font-size:11px;font-weight:700;color:#6366f1;background:#1e1d3f;padding:2px 6px;border-radius:4px;flex-shrink:0}
.key-val{flex:1;font-size:12px;font-family:monospace;color:#94a3b8;overflow:hidden;text-overflow:ellipsis;white-space:nowrap}
.btn-sm{padding:5px 10px;font-size:12px}
.no-keys{font-size:13px;color:#475569;padding:8px 0;margin-bottom:8px}
.happ-row{padding:12px 0;border-bottom:1px solid #1e2030}
.happ-row:last-child{border-bottom:none}
.happ-name{font-size:14px;font-weight:600;color:#e2e8f0}
.happ-meta{font-size:12px;color:#64748b;margin-top:4px}
.happ-actions{display:flex;gap:8px;margin-top:10px;flex-wrap:wrap}
.badge-running{background:#0d2618;border:1px solid #166534;color:#86efac}
.badge-paused{background:#1a1d27;border:1px solid #3d4468;color:#94a3b8}
.badge-error{background:#2d1515;border:1px solid #7f1d1d;color:#fca5a5}
.badge-installing{background:#1e1d3f;border:1px solid #4338ca;color:#a5b4fc}
.tab-bar{display:flex;gap:8px;margin-bottom:12px}
.tab-btn{padding:6px 12px;border-radius:6px;border:1px solid #2d3148;background:#0f1117;color:#94a3b8;cursor:pointer;font-size:12px;font-family:inherit}
.tab-btn.active{border-color:#6366f1;color:#e2e8f0;background:#1e1d3f}
.log-box{background:#0f1117;border:1px solid #2d3148;border-radius:8px;padding:10px;font-size:11px;font-family:monospace;color:#94a3b8;max-height:200px;overflow:auto;white-space:pre-wrap;margin-top:8px}
</style></head><body style="align-items:flex-start;padding:0">
<div class="card" style="max-width:680px;border-radius:0 0 16px 16px;min-height:100vh">
  <div class="page-hdr">
    <div>
      <h1>🜲 "#;

/// The page up to the version.
pub const TO_VERSION: &'static str = r#"</h1>
      <p>Node Manager v"#;

/// The page up to the address.
pub const TO_ADDRESS: &'static str = r#" &nbsp;·&nbsp; "#;

/// The page up to the uptime.
pub const TO_UPTIME: &'static str = r#" &nbsp;·&nbsp; up "#;

/// The page up to the mode.
pub const TO_MODE: &'static str = r#"</p>
    </div>
    <form method="POST" action="/logout" style="margin:0"><button type="submit" class="logout">Log out</button></form>
  </div>
  <div class="info-row">
    <div class="info-item">Mode <span id="info-hw">"#;

/// The page up to whether an Agent ID is set.
pub const TO_AGENT_STATE: &'static str = r#"</span></div>
    <div class="info-item">Unyt <span id="info-unyt">"#;

/// The page up to the notice about the seed phrase.
pub const TO_SEED_NOTICE: &'static str = r#"</span></div>
  </div>
"#;

/// The page up to the field of the name.
pub const TO_NAME_VALUE: &'static str = r#"
  <!-- NODE NAME -->
  <div class="section">
    <div class="section-hdr" onclick="toggleSection('name')">
      <div class="section-title"><span>🏷</span> Node Name</div>
      <span class="section-arrow" id="arr-name">▼</span>
    </div>
    <div class="section-body" id="sec-name">
      <label>Node name</label>
      <input type="text" id="nodeName" value=""#;

/// The page up to the badge of the mode.
pub const TO_MODE_BADGE: &'static str = r#"" placeholder="e.g. alice, home-node-01" oninput="chkNodeName()">
      <div class="hint" id="nodeNameHint">Lowercase letters, numbers and hyphens only.</div>
      <div style="margin-top:10px"><button class="btn btn-primary" id="nodeNameBtn" onclick="saveNodeName()" disabled>Save Node Name</button></div>
    </div>
  </div>

  <!-- MODE -->
  <div class="section">
    <div class="section-hdr" onclick="toggleSection('hw')">
      <div class="section-title"><span>⚙️</span> Mode <span class="section-badge badge-green" id="hw-badge">"#;

/// The page up to the class of the ordinary mode.
pub const TO_STANDARD_CLASS: &'static str = r#"</span></div>
      <span class="section-arrow" id="arr-hw">▼</span>
    </div>
    <div class="section-body" id="sec-hw">
      <div class="hw-opts">
        <div class="hw-opt"#;

/// The page up to the class of the Wind Tunnel mode.
pub const TO_WIND_TUNNEL_CLASS: &'static str = r#"" onclick="selHw('STANDARD',this)">
          <div class="hw-opt-name">🌐 Standard EdgeNode</div>
          <div class="hw-opt-desc">Always-on Holochain peer</div>
        </div>
        <div class="hw-opt"#;

/// The page up to the class of the badge of the Agent ID.
pub const TO_AGENT_CLASS: &'static str = r#"" onclick="selHw('WIND_TUNNEL',this)">
          <div class="hw-opt-name">🌀 Wind Tunnel</div>
          <div class="hw-opt-desc">Network stress-tester</div>
        </div>
      </div>
      <div style="margin-top:10px"><button class="btn btn-primary" onclick="saveHardware()">Apply Mode</button></div>
    </div>
  </div>

  <!-- HOLOFUEL -->
  <div class="section">
    <div class="section-hdr" onclick="toggleSection('unyt')">
      <div class="section-title"><span>💰</span> HoloFuel <span class="section-badge "#;

/// The page up to the badge of the Agent ID.
pub const TO_AGENT_BADGE: &'static str = r#"" id="unyt-badge">"#;

/// The page up to the explanation of Agent IDs.
pub const TO_AGENT_COPY: &'static str = r#"</span></div>
      <span class="section-arrow" id="arr-unyt">▼</span>
    </div>
    <div class="section-body" id="sec-unyt">
      "#;

/// The page up to the Agent ID.
pub const TO_AGENT: &'static str = r#"
      <p style="font-size:13px;color:#64748b;margin:14px 0">Current Agent ID: <strong style="color:#e2e8f0">"#;

/// The page up to the field of the Agent ID.
pub const TO_AGENT_VALUE: &'static str = r#"</strong></p>
      <label>Unyt Agent ID</label>
      <input type="text" id="unytAgentId" value=""#;

/// The page up to the notice about applications.
pub const TO_HAPPS_NOTICE: &'static str = r#"" placeholder="Paste your Agent ID from the Unyt desktop app">
      <div class="hint">Your Unyt public key — used for HoloFuel compensation and as LOG_SENDER_UNYT_PUB_KEY for hosted hApp invoicing.</div>
      <div style="margin-top:10px">
        <button class="btn btn-primary" onclick="saveUnyt()">Save Agent ID</button>
      </div>
    </div>
  </div>

  <!-- HOSTED HAPPS -->
  <div class="section">
    <div class="section-hdr" onclick="toggleSection('happs')">
      <div class="section-title"><span>📦</span> Hosted hApps</div>
      <span class="section-arrow" id="arr-happs">▼</span>
    </div>
    <div class="section-body" id="sec-happs" style="display:block">
      "#;

/// The page up to the number of keys.
pub const TO_KEY_COUNT: &'static str = r#"
      <div id="happs-list"><p style="font-size:13px;color:#475569">Loading hosted applications…</p></div>
      <div style="margin-top:16px;padding-top:16px;border-top:1px solid #2d3148">
        <div class="section-title" style="margin-bottom:12px;font-size:13px"><span>➕</span> Add hApp</div>
        <div class="tab-bar">
          <button class="tab-btn active" id="tab-paste" onclick="switchManifestTab('paste')">Paste manifest</button>
          <button class="tab-btn" id="tab-manual" onclick="switchManifestTab('manual')">Manual entry</button>
        </div>
        <div id="manifest-paste">
          <label>hApp manifest (JSON)</label>
          <textarea id="manifestJson" rows="12" placeholder='{"app":{"name":"my_app",...},"economics":{...}}'></textarea>
        </div>
        <div id="manifest-manual" style="display:none">
          <label>app.name</label><input type="text" id="mf-name" placeholder="my_app">
          <label>app.version</label><input type="text" id="mf-version" placeholder="0.1.0">
          <label>app.happUrl</label><input type="url" id="mf-happUrl" placeholder="https://.../app.happ">
          <label>app.modifiers.networkSeed</label><input type="text" id="mf-networkSeed" placeholder="your-network-seed">
          <label>economics.agreementHash</label><input type="text" id="mf-agreementHash" placeholder="uhCkk...">
          <label>economics.payorUnytAgentPubKey</label><input type="text" id="mf-payor" placeholder="uhCAk...">
          <label>economics.priceSheetHash (optional)</label><input type="text" id="mf-priceSheet" placeholder="">
        </div>
        <div id="validate-result" style="display:none;margin-top:10px"></div>
        <div style="margin-top:12px;display:flex;gap:8px;flex-wrap:wrap">
          <button class="btn btn-secondary" onclick="validateManifest()" id="validate-btn">Validate</button>
          <button class="btn btn-primary" onclick="deployManifest()" id="deploy-btn">Deploy</button>
        </div>
      </div>
    </div>
  </div>

  <!-- SSH KEYS -->
  <div class="section">
    <div class="section-hdr" onclick="toggleSection('ssh')">
      <div class="section-title"><span>🔑</span> SSH Keys <span class="section-badge badge-green">"#;

/// The page up to the plural of keys.
pub const TO_KEY_PLURAL: &'static str = r#" key"#;

/// The page up to the keys.
pub const TO_KEYS: &'static str = r#"</span></div>
      <span class="section-arrow" id="arr-ssh">▼</span>
    </div>
    <div class="section-body" id="sec-ssh" style="display:block">
      <div id="key-list">"#;

/// The page up to the field of the log collector.
pub const TO_ENDPOINT_VALUE: &'static str = r#"</div>
      <div style="margin-top:12px">
        <label>Add SSH public key</label>
        <textarea id="newKey" placeholder="ssh-ed25519 AAAA… or ssh-rsa AAAA…"></textarea>
        <div style="margin-top:8px"><button class="btn btn-primary" onclick="addKey()">Add Key</button></div>
      </div>
    </div>
  </div>

  <!-- ADVANCED -->
  <div class="section">
    <div class="section-hdr" onclick="toggleSection('adv')">
      <div class="section-title"><span>🔧</span> Advanced</div>
      <span class="section-arrow" id="arr-adv">▼</span>
    </div>
    <div class="section-body" id="sec-adv">
      <div class="info-box" style="margin-top:0;margin-bottom:16px">These settings are for support and feature testing only. Do not change them unless you are explicitly testing features or working with support. Changing them may interfere with your ability to earn HoloFuel.</div>
      <div class="section-title" style="margin-bottom:12px;font-size:13px"><span>📡</span> Log Collector URL</div>
      <label>Log Collector URL</label>
      <input type="url" id="logSenderEndpoint" value=""#;

/// The page up to the host name.
pub const TO_HOSTNAME: &'static str = r#"" placeholder="https://your-log-collector.example.com">
      <div class="hint">LOG_SENDER_ENDPOINT — required for Unyt resource accounting when hosting hApps with an economics section.</div>
      <div style="margin-top:10px"><button class="btn btn-secondary" onclick="saveLogSender()">Save Log Collector URL</button></div>
      <div style="margin-top:20px;padding-top:16px;border-top:1px solid #2d3148">
        <div class="section-title" style="margin-bottom:12px;font-size:13px"><span>🌀</span> Wind Tunnel</div>
        <p style="font-size:13px;color:#64748b;margin-bottom:14px">
          Nomad hostname: <code>"#;

/// The page up to the image.
pub const TO_IMAGE: &'static str = r#"</code><br>
          Effective image: <code>"#;

/// The page up to the entrypoint.
pub const TO_ENTRYPOINT: &'static str = r#"</code><br>
          Entrypoint bind: <code>"#;

/// The page up to the link to the status.
pub const TO_STATUS_LINK: &'static str = r#"</code><br>
          <a href=""#;

/// The page up to the field of the image.
pub const TO_IMAGE_VALUE: &'static str = r#"" target="_blank" rel="noopener" style="color:#818cf8;font-size:12px">Check Wind Tunnel runner status</a>
        </p>
        <p style="font-size:12px;color:#475569;margin-bottom:14px">
          Optional overrides for testing patched entrypoints or custom images. Leave empty to use production defaults.
        </p>
        <label>Image override</label>
        <input type="text" id="wtImageOverride" value=""#;

/// The page up to the field of the entrypoint.
pub const TO_ENTRYPOINT_VALUE: &'static str = r#"" placeholder="ghcr.io/holochain/wind-tunnel-runner:latest">
        <div class="hint">Full image reference including tag. Empty = auto-resolve latest for this architecture.</div>
        <label style="margin-top:12px">Entrypoint bind</label>
        <input type="text" id="wtEntrypointBind" value=""#;

/// The page up to the badge of the version.
pub const TO_VERSION_BADGE: &'static str = r#"" placeholder="/home/holo/entrypoint.sh">
        <div class="hint">Host path under /home/holo/ mounted read-only as /entrypoint.sh in the container.</div>
        <div style="margin-top:14px"><button class="btn btn-primary" onclick="applyWindTunnel()">Apply Wind Tunnel Config</button></div>
      </div>
    </div>
  </div>

  <!-- PASSWORD -->
  <div class="section">
    <div class="section-hdr" onclick="toggleSection('pw')">
      <div class="section-title"><span>🔐</span> Change Password</div>
      <span class="section-arrow" id="arr-pw">▼</span>
    </div>
    <div class="section-body" id="sec-pw">
      <div class="info-box" style="margin-top:0;margin-bottom:14px">Store your new password securely. If it is lost, only your recovery seed phrase can reset it.</div>
      <label>Current password</label><input type="password" id="pw-cur" autocomplete="current-password">
      <label>New password</label><input type="password" id="pw-new" autocomplete="new-password">
      <label>Confirm new password</label><input type="password" id="pw-cfm" autocomplete="new-password">
      <div style="margin-top:14px"><button class="btn btn-primary" onclick="changePassword()">Update Password</button></div>
    </div>
  </div>

  <!-- SOFTWARE UPDATE -->
  <div class="section">
    <div class="section-hdr" onclick="toggleSection('upd')">
      <div class="section-title"><span>🔄</span> Software Update <span class="section-badge badge-gray">v"#;

/// The page up to the mode in the script.
pub const TO_SCRIPT_MODE: &'static str = r#"</span></div>
      <span class="section-arrow" id="arr-upd">▼</span>
    </div>
    <div class="section-body" id="sec-upd">
      <p style="font-size:13px;color:#64748b;margin-bottom:14px">Nodes check for updates automatically every hour from GitHub Releases. You can also trigger an immediate check.</p>
      <button class="btn btn-primary" onclick="triggerUpdate()" id="upd-btn">Check for Updates Now</button>
      <div id="upd-msg" style="margin-top:10px;font-size:13px;color:#64748b;display:none"></div>
    </div>
  </div>
</div>
<div class="toast" id="toast"></div>
<script>
let curHw='"#;

/// The page up to the name in the script.
pub const TO_SCRIPT_NAME: &'static str = r#"';

function toggleSection(id){
  const body=document.getElementById('sec-'+id);
  const arr=document.getElementById('arr-'+id);
  if(!body)return;
  const open=body.style.display==='block';
  body.style.display=open?'none':'block';
  if(arr)arr.textContent=open?'▶':'▼';
}
['name','hw','unyt','happs','adv','pw','upd'].forEach(id=>toggleSection(id));
toggleSection('happs');
document.getElementById('sec-happs').style.display='block';
document.getElementById('arr-happs').textContent='▼';

let manifestTab='paste';
let happsPoll=null;

function switchManifestTab(tab){
  manifestTab=tab;
  document.getElementById('tab-paste').classList.toggle('active',tab==='paste');
  document.getElementById('tab-manual').classList.toggle('active',tab==='manual');
  document.getElementById('manifest-paste').style.display=tab==='paste'?'block':'none';
  document.getElementById('manifest-manual').style.display=tab==='manual'?'block':'none';
  if(tab==='manual')syncManualToJson();
  else syncJsonToManual();
}

function buildManifestFromFields(){
  const name=v('mf-name'),ver=v('mf-version'),url=v('mf-happUrl'),seed=v('mf-networkSeed');
  const agreement=v('mf-agreementHash'),payor=v('mf-payor'),price=v('mf-priceSheet');
  return JSON.stringify({
    app:{name,version,happUrl:url,modifiers:{networkSeed:seed,properties:""}},
    economics:{payorUnytAgentPubKey:payor,agreementHash:agreement,priceSheetHash:price}
  },null,2);
}

function syncManualToJson(){
  document.getElementById('manifestJson').value=buildManifestFromFields();
}

function syncJsonToManual(){
  try{
    const m=JSON.parse(document.getElementById('manifestJson').value||'{}');
    const app=m.app||{},mod=app.modifiers||{},eco=m.economics||{};
    document.getElementById('mf-name').value=app.name||'';
    document.getElementById('mf-version').value=app.version||'';
    document.getElementById('mf-happUrl').value=app.happUrl||'';
    document.getElementById('mf-networkSeed').value=mod.networkSeed||'';
    document.getElementById('mf-agreementHash').value=eco.agreementHash||'';
    document.getElementById('mf-payor').value=eco.payorUnytAgentPubKey||'';
    document.getElementById('mf-priceSheet').value=eco.priceSheetHash||'';
  }catch(e){}
}

function getManifest(){
  if(manifestTab==='manual')return buildManifestFromFields();
  return document.getElementById('manifestJson').value.trim();
}

function statusBadge(s){
  const m={running:'badge-running',paused:'badge-paused',error:'badge-error',installing:'badge-installing'};
  const labels={running:'Running',paused:'Paused',error:'Error',installing:'Installing'};
  const cls=m[s]||'badge-gray';
  const lbl=labels[s]||s;
  return `<span class="section-badge ${cls}">${lbl}</span>`;
}

async function loadHapps(){
  try{
    const r=await fetch('/manage/happs',{credentials:'same-origin'});
    if(r.status===401){location.href='/login';return;}
    const data=await r.json();
    const el=document.getElementById('happs-list');
    if(!data.happs||!data.happs.length){
      el.innerHTML='<p style="font-size:13px;color:#475569">No hApps hosted yet. Add one below.</p>';
      return;
    }
    el.innerHTML=data.happs.map(h=>{
      const actions=[];
      if(h.status==='running')actions.push(`<button class="btn btn-secondary btn-sm" onclick="happAction('disable','${esc(h.app_id)}','${esc(h.id)}')">Pause</button>`);
      if(h.status==='paused')actions.push(`<button class="btn btn-secondary btn-sm" onclick="happAction('enable','${esc(h.app_id)}','${esc(h.id)}')">Resume</button>`);
      if(h.status!=='installing')actions.push(`<button class="btn btn-danger btn-sm" onclick="happAction('uninstall','${esc(h.app_id)}','${esc(h.id)}')">Remove</button>`);
      actions.push(`<button class="btn btn-secondary btn-sm" onclick="showHappLogs('${esc(h.id)}')">Logs</button>`);
      const err=h.last_error?`<div class="err-box" style="margin-top:8px;font-size:11px">${esc(h.last_error)}</div>`:'';
      const logs=`<div id="logs-${esc(h.id)}" style="display:none"></div>`;
      return `<div class="happ-row"><div class="happ-name">${esc(h.app_name)} <span style="color:#64748b;font-weight:400">v${esc(h.app_version)}</span> ${statusBadge(h.status)}</div><div class="happ-meta">Deployed: ${esc(h.deployed_duration||'—')} &nbsp;·&nbsp; ID: <code style="font-size:11px">${esc(h.app_id||'(pending)')}</code></div>${err}<div class="happ-actions">${actions.join('')}</div>${logs}</div>`;
    }).join('');
    const installing=data.happs.some(h=>h.status==='installing');
    if(installing&&!happsPoll)happsPoll=setInterval(loadHapps,4000);
    else if(!installing&&happsPoll){clearInterval(happsPoll);happsPoll=null;}
  }catch(e){
    document.getElementById('happs-list').innerHTML='<p class="err-box">Failed to load hApps: '+esc(e.message)+'</p>';
  }
}

function esc(s){return String(s||'').replace(/&/g,'&amp;').replace(/</g,'&lt;').replace(/>/g,'&gt;').replace(/"/g,'&quot;').replace(/'/g,'&#39;');}

async function happAction(action,appId,deploymentId){
  if(action==='uninstall'&&!confirm('Remove this hApp from the node?'))return;
  const paths={enable:'/manage/happs/enable',disable:'/manage/happs/disable',uninstall:'/manage/happs/uninstall'};
  try{
    const body=action==='uninstall'?{deploymentId,appId}:{appId};
    await api(paths[action],body);
    toast(action==='uninstall'?'hApp removed':(action==='enable'?'hApp resumed':'hApp paused'),true);
    loadHapps();
  }catch(e){toast('Error: '+e.message,false);}
}

async function showHappLogs(id){
  const el=document.getElementById('logs-'+id);
  if(!el)return;
  if(el.style.display==='block'){el.style.display='none';return;}
  el.style.display='block';
  el.innerHTML='<p style="color:#64748b;font-size:12px">Loading logs…</p>';
  try{
    const r=await fetch('/manage/happs/logs?id='+encodeURIComponent(id),{credentials:'same-origin'});
    const data=await r.json();
    const text='=== Install log ===\\n'+(data.install_log||'')+'\\n\\n=== Holochain log (tail) ===\\n'+(data.holochain_log||'')+'\\n\\n=== Log-sender log (tail) ===\\n'+(data.log_sender_log||'');
    el.innerHTML=`<div class="log-box" id="logbox-${id}">${esc(text)}</div><button class="btn btn-secondary btn-sm" style="margin-top:8px" onclick="copyLog('logbox-${id}')">Copy logs</button>`;
  }catch(e){el.innerHTML='<p class="err-box">'+esc(e.message)+'</p>';}
}

function copyLog(id){
  const el=document.getElementById(id);
  if(!el)return;
  navigator.clipboard.writeText(el.textContent).then(()=>toast('Copied to clipboard',true)).catch(()=>toast('Copy failed',false));
}

async function validateManifest(){
  const raw=getManifest();
  if(!raw)return toast('Enter or paste a manifest first',false);
  let parsed;
  try{parsed=JSON.parse(raw);}catch(e){return toast('Invalid JSON: '+e.message,false);}
  const btn=document.getElementById('validate-btn');
  const res=document.getElementById('validate-result');
  btn.disabled=true;
  try{
    const data=await api('/manage/happs/validate',{manifest:parsed});
    res.style.display='block';
    res.className=data.valid?'ok-box':'err-box';
    res.textContent=data.output||'(no output)';
  }catch(e){
    res.style.display='block';res.className='err-box';res.textContent=e.message;
  }finally{btn.disabled=false;}
}

async function deployManifest(){
  const raw=getManifest();
  if(!raw)return toast('Enter or paste a manifest first',false);
  let parsed;
  try{parsed=JSON.parse(raw);}catch(e){return toast('Invalid JSON: '+e.message,false);}
  const btn=document.getElementById('deploy-btn');
  btn.disabled=true;btn.textContent='Deploying…';
  try{
    await api('/manage/happs/deploy',{manifest:parsed});
    toast('Deploy started — watch status below',true);
    document.getElementById('validate-result').style.display='none';
    loadHapps();
    if(!happsPoll)happsPoll=setInterval(loadHapps,4000);
  }catch(e){toast('Error: '+e.message,false);}
  finally{btn.disabled=false;btn.textContent='Deploy';}
}

loadHapps();

const ORIGINAL_NODE_NAME='"#;

/// The rest of the page.
pub const TO_END: &'static str = r#"';

function chkNodeName(){
  const name=v('nodeName');
  const ok=/^[a-z0-9-]+$/.test(name);
  const changed=name!==ORIGINAL_NODE_NAME;
  const btn=document.getElementById('nodeNameBtn');
  const hint=document.getElementById('nodeNameHint');
  if(btn)btn.disabled=!ok||!name||!changed;
  if(!hint)return;
  if(!name){hint.textContent='Node name is required.';return;}
  if(!ok){hint.textContent='Lowercase letters, numbers and hyphens only.';return;}
  hint.textContent=changed?'Press Save to apply the new node name.':'Change the node name above to enable Save.';
}

async function saveNodeName(){
  const nodeName=v('nodeName');
  if(!nodeName)return toast('Node name is required',false);
  if(!/^[a-z0-9-]+$/.test(nodeName))return toast('Node name must be lowercase letters, numbers and hyphens only',false);
  try{
    const r=await api('/manage/nodename',{nodeName});
    toast('Node name saved — reloading…',true);
    setTimeout(()=>location.reload(),800);
  }catch(e){toast('Error: '+e.message,false);}
}
chkNodeName();

function toast(msg,ok){
  const t=document.getElementById('toast');
  t.textContent=msg;
  t.className='toast '+(ok?'ok':'err')+' vis';
  clearTimeout(t._t);t._t=setTimeout(()=>t.classList.remove('vis'),4000);
}

async function api(path,payload){
  const r=await fetch(path,{method:'POST',headers:{'Content-Type':'application/json'},credentials:'same-origin',body:JSON.stringify(payload)});
  if(r.status===401){location.href='/login';throw new Error('Session expired — please log in again');}
  const text=await r.text();
  if(!r.ok){
    try{const j=JSON.parse(text);throw new Error(j.error||text);}catch(e){if(e.message)throw e;throw new Error(text||'Server error '+r.status);}
  }
  try{return JSON.parse(text);}catch{return {};}
}

function v(id){const e=document.getElementById(id);return e?e.value.trim():'';}

async function addKey(){
  const key=document.getElementById('newKey').value.trim();
  if(!key)return toast('Paste a public key first',false);
  try{await api('/manage/ssh/add',{key});document.getElementById('newKey').value='';toast('Key added — reloading…',true);setTimeout(()=>location.reload(),800);}
  catch(e){toast('Error: '+e.message,false);}
}
async function removeKey(i){
  if(!confirm('Remove this SSH key?'))return;
  try{await api('/manage/ssh/remove',{index:i});toast('Key removed — reloading…',true);setTimeout(()=>location.reload(),800);}
  catch(e){toast('Error: '+e.message,false);}
}

function selHw(mode,el){
  curHw=mode;
  document.querySelectorAll('.hw-opt').forEach(o=>o.classList.remove('sel'));
  el.classList.add('sel');
}

async function saveUnyt(){
  const agent=v('unytAgentId');
  try{
    await api('/manage/unyt',{unytAgentId:agent});
    toast('Unyt Agent ID saved — reloading…',true);
    setTimeout(()=>location.reload(),800);
  }catch(e){toast('Error: '+e.message,false);}
}

async function saveLogSender(){
  const endpoint=v('logSenderEndpoint');
  try{
    await api('/manage/log-sender',{logSenderEndpoint:endpoint});
    toast('Log Collector URL saved — EdgeNode will restart if running',true);
  }catch(e){toast('Error: '+e.message,false);}
}

async function applyWindTunnel(){
  try{
    const r=await api('/manage/wind-tunnel',{
      wtImageOverride:v('wtImageOverride'),
      wtEntrypointBind:v('wtEntrypointBind'),
      apply:true
    });
    toast('Wind Tunnel config applied — reloading…',true);
    setTimeout(()=>location.reload(),800);
  }catch(e){toast('Error: '+e.message,false);}
}

async function saveHardware(){
  try{
    await api('/manage/hardware',{mode:curHw});
    document.getElementById('hw-badge').textContent=curHw==='WIND_TUNNEL'?'Wind Tunnel':'EdgeNode';
    document.getElementById('info-hw').textContent=curHw==='WIND_TUNNEL'?'Wind Tunnel':'EdgeNode';
    toast('Mode updated',true);
  }catch(e){toast('Error: '+e.message,false);}
}

async function changePassword(){
  const cur=v('pw-cur'),nw=v('pw-new'),cfm=v('pw-cfm');
  if(!cur||!nw)return toast('Fill in all password fields',false);
  if(nw!==cfm)return toast('New passwords do not match',false);
  if(nw.length<8)return toast('Password must be at least 8 characters',false);
  try{
    await api('/manage/password',{current:cur,newPassword:nw});
    ['pw-cur','pw-new','pw-cfm'].forEach(id=>document.getElementById(id).value='');
    toast('Password updated',true);
  }catch(e){toast('Error: '+e.message,false);}
}

async function generateSeed(){
  const btn=document.getElementById('seed-btn');
  btn.disabled=true;
  try{
    const r=await api('/manage/auth/generate_seed',{});
    document.getElementById('seed-phrase').textContent=r.seed_phrase;
    document.getElementById('seed-ask').style.display='none';
    document.getElementById('seed-show').style.display='block';
  }catch(e){btn.disabled=false;toast('Error: '+e.message,false);}
}

async function triggerUpdate(){
  const btn=document.getElementById('upd-btn');
  const msg=document.getElementById('upd-msg');
  btn.disabled=true;btn.textContent='Checking…';msg.style.display='none';
  try{
    await api('/manage/update',{});
    msg.textContent='Update check triggered. If a newer version is found the node will restart automatically.';
    msg.style.display='block';
  }catch(e){msg.textContent='Error: '+e.message;msg.style.display='block';}
  finally{btn.disabled=false;btn.textContent='Check for Updates Now';}
}
</script>
</body></html>"#;

// ---------------------------------------------------------------------------
// The keys
// ---------------------------------------------------------------------------

/// How many bytes of a key are shown.
pub const KEY_LIMIT: usize = 72;

/// A text for HTML.
pub open spec fn html(s: Seq<char>) -> Seq<char> {
    escaped(s, Escape::Html)
}

/// What is shown of a key: all of it, or its beginning.
pub open spec fn shortened(key: Seq<char>) -> Seq<char> {
    if byte_len(key) > KEY_LIMIT {
        bytes_before(key, KEY_LIMIT as int) + "…"@
    } else {
        key
    }
}

/// The limit does not cut through a character of a long key.
pub open spec fn key_cuttable(key: Seq<char>) -> bool {
    byte_len(key) > KEY_LIMIT ==> is_char_boundary(encode_utf8(key), KEY_LIMIT as int)
}

/// The kind of a key: its first word.
pub open spec fn key_kind(key: Seq<char>) -> Seq<char> {
    if words(key).len() == 0 {
        "key"@
    } else {
        words(key)[0]
    }
}

/// The row of a key at a place.
pub open spec fn key_row(key: Seq<char>, place: nat) -> Seq<char> {
    "<div class=\"key-row\"><span class=\"key-type\">"@ + html(key_kind(key))
        + "</span><span class=\"key-val\">"@ + html(shortened(key))
        + "</span><button class=\"btn btn-danger btn-sm\" onclick=\"removeKey("@ + dec(place)
        + ")\">Remove</button></div>"@
}

/// The rows of keys.
pub open spec fn key_rows(keys: Seq<Seq<char>>) -> Seq<char>
    decreases keys.len(),
{
    if keys.len() == 0 {
        seq![]
    } else {
        key_rows(keys.drop_last()) + key_row(keys.last(), (keys.len() - 1) as nat)
    }
}

/// The list of keys.
pub open spec fn keys_html(keys: Seq<Seq<char>>) -> Seq<char> {
    if keys.len() == 0 {
        "<div class=\"no-keys\">No SSH keys configured. Add one below to enable SSH access.</div>"@
    } else {
        key_rows(keys)
    }
}

/// Whether the limit does not cut through a character of any long key of a file.
pub fn keys_are_showable(content: &str) -> (r: bool)
    ensures
        r == (forall|i: int|
            0 <= i < keys_of(content@).len() ==> key_cuttable(#[trigger] keys_of(content@)[i])),
{
    let keys = read_ssh_keys(content);
    let mut i: usize = 0;
    while i < keys.len()
        invariant
            i <= keys@.len(),
            strings(keys@) == keys_of(content@),
            forall|j: int| 0 <= j < i ==> key_cuttable(#[trigger] strings(keys@)[j]),
        decreases keys@.len() - i,
    {
        let key = keys[i].as_str();
        assert(key@ == strings(keys@)[i as int]);
        if byte_count(key) > KEY_LIMIT && split_at_byte(key, KEY_LIMIT).is_none() {
            assert(!key_cuttable(keys_of(content@)[i as int]));
            return false;
        }
        i += 1;
    }
    true
}

/// Adds the row of a key.
fn push_key_row(out: &mut String, key: &str, place: usize)
    requires
        key_cuttable(key@),
    ensures
        final(out)@ == old(out)@ + key_row(key@, place as nat),
{
    let c = chars_of(key);
    let ws = words_of(c.as_slice());
    assert(texts(ws@) == words(key@));
    let kind = if ws.len() == 0 {
        "key".to_owned()
    } else {
        assert(ws@[0]@ == texts(ws@)[0]);
        string_of(ws[0])
    };
    let short = if byte_count(key) > KEY_LIMIT {
        match split_at_byte(key, KEY_LIMIT) {
            Some((start, _)) => {
                let mut s = start;
                s.append("…");
                s
            },
            None => String::new(),
        }
    } else {
        key.to_owned()
    };
    let mut row = "<div class=\"key-row\"><span class=\"key-type\">".to_owned();
    row.append(html_escape(kind.as_str()).as_str());
    row.append("</span><span class=\"key-val\">");
    row.append(html_escape(short.as_str()).as_str());
    row.append("</span><button class=\"btn btn-danger btn-sm\" onclick=\"removeKey(");
    push_dec(&mut row, place as u128);
    row.append(")\">Remove</button></div>");
    out.append(row.as_str());
}

/// The list of keys.
fn build_keys_html(keys: &Vec<String>) -> (r: String)
    requires
        forall|i: int| 0 <= i < keys@.len() ==> key_cuttable(#[trigger] strings(keys@)[i]),
    ensures
        r@ == keys_html(strings(keys@)),
{
    if keys.len() == 0 {
        return "<div class=\"no-keys\">No SSH keys configured. Add one below to enable SSH access.</div>".to_owned();
    }
    let ghost all = strings(keys@);
    let mut out = String::new();
    let mut i: usize = 0;
    assert(all.take(0) =~= Seq::<Seq<char>>::empty());
    assert(out@ =~= key_rows(all.take(0)));
    while i < keys.len()
        invariant
            i <= keys@.len(),
            all == strings(keys@),
            forall|j: int| 0 <= j < keys@.len() ==> key_cuttable(#[trigger] strings(keys@)[j]),
            out@ == key_rows(all.take(i as int)),
        decreases keys@.len() - i,
    {
        assert(all.take(i + 1).drop_last() =~= all.take(i as int));
        assert(strings(keys@)[i as int] == keys@[i as int]@);
        push_key_row(&mut out, keys[i].as_str(), i);
        i += 1;
    }
    assert(all.take(all.len() as int) =~= all);
    out
}

// ---------------------------------------------------------------------------
// The page
// ---------------------------------------------------------------------------

/// The mode as it is shown.
pub open spec fn mode_shown(mode: Seq<char>) -> Seq<char> {
    if mode == WIND_TUNNEL@ {
        "Wind Tunnel"@
    } else {
        "EdgeNode"@
    }
}

/// A text where a condition holds, or nothing.
pub open spec fn only_if(cond: bool, text: Seq<char>) -> Seq<char> {
    if cond {
        text
    } else {
        ""@
    }
}

/// The notice that applications cannot be hosted in the Wind Tunnel mode.
pub const HAPPS_WRONG_MODE: &'static str = r#"<div class="info-box" style="margin-bottom:14px">hApp hosting is only available in Standard EdgeNode mode. Switch to Standard EdgeNode mode above to host applications.</div>"#;

/// The notice that the container is not running.
pub const HAPPS_NOT_RUNNING: &'static str = r#"<div class="err-box" style="margin-bottom:14px">EdgeNode is not running. Switch to Standard EdgeNode mode and ensure the container is started.</div>"#;

/// The notice about applications.
pub open spec fn happs_notice(mode: Seq<char>, running: bool) -> Seq<char> {
    if mode == WIND_TUNNEL@ {
        HAPPS_WRONG_MODE@
    } else if !running {
        HAPPS_NOT_RUNNING@
    } else {
        ""@
    }
}

/// The notice that the node has no recovery seed phrase, and the button that makes
/// one.
pub const SEED_NOTICE: &'static str = r#"
  <!-- RECOVERY SEED PHRASE -->
  <div style="padding:16px 32px">
    <div class="info-box" id="seed-ask" style="margin-top:0">
      <strong>Upgrade Security: Generate Recovery Seed Phrase</strong><br>
      This node has no recovery seed phrase. Without one a forgotten password cannot be reset.
      <div style="margin-top:10px"><button class="btn btn-primary" id="seed-btn" onclick="generateSeed()">Generate Recovery Seed Phrase</button></div>
    </div>
    <div class="ok-box" id="seed-show" style="display:none;margin-bottom:0">
      <strong>Your recovery seed phrase — it will NOT be shown again:</strong>
      <p id="seed-phrase" style="font-family:monospace;font-size:15px;line-height:1.8;margin:10px 0;color:#f1f5f9"></p>
      <label><input type="checkbox" id="seed-saved" onchange="document.getElementById('seed-done').disabled=!this.checked"> I have saved my recovery seed phrase</label>
      <div style="margin-top:10px"><button class="btn btn-primary" id="seed-done" onclick="location.reload()" disabled>Done</button></div>
    </div>
  </div>
"#;

/// The Agent ID as it is shown.
pub open spec fn agent_shown(agent_id: Seq<char>) -> Seq<char> {
    if agent_id.len() == 0 {
        "(not set — compensation unavailable)"@
    } else {
        agent_id
    }
}

/// The first part of the page: what the node is.
pub open spec fn page_head(state: StateView, uptime: nat, ip: Seq<char>) -> Seq<char> {
    TO_TITLE@ + html(state.node_name) + TO_STYLE@ + COMMON_CSS@ + TO_HEADING@ + html(
        state.node_name,
    ) + TO_VERSION@ + VERSION@ + TO_ADDRESS@ + html(ip) + TO_UPTIME@ + uptime_text(uptime) + TO_MODE@
        + mode_shown(state.hw_mode) + TO_AGENT_STATE@ + (if state.unyt_agent_id.len() == 0 {
        "not set"@
    } else {
        "set"@
    })
}

/// The second part of the page: a notice where it has no seed phrase, its name, its
/// mode and its Agent ID.
pub open spec fn page_settings(state: StateView) -> Seq<char> {
    TO_SEED_NOTICE@ + only_if(state.seed_hash.len() == 0, SEED_NOTICE@) + TO_NAME_VALUE@ + html(state.node_name) + TO_MODE_BADGE@ + mode_shown(state.hw_mode)
        + TO_STANDARD_CLASS@ + only_if(state.hw_mode != WIND_TUNNEL@, " sel"@)
        + TO_WIND_TUNNEL_CLASS@ + only_if(state.hw_mode == WIND_TUNNEL@, " sel"@)
        + TO_AGENT_CLASS@ + (if state.unyt_agent_id.len() == 0 {
        "badge-gray"@
    } else {
        "badge-green"@
    }) + TO_AGENT_BADGE@ + (if state.unyt_agent_id.len() == 0 {
        "not set"@
    } else {
        "set"@
    }) + TO_AGENT_COPY@ + UNYT_INFO_COPY@ + TO_AGENT@ + html(agent_shown(state.unyt_agent_id))
        + TO_AGENT_VALUE@ + html(state.unyt_agent_id)
}

/// The third part of the page: its applications and its keys.
pub open spec fn page_access(state: StateView, keys: Seq<Seq<char>>, running: bool) -> Seq<char> {
    TO_HAPPS_NOTICE@ + happs_notice(state.hw_mode, running) + TO_KEY_COUNT@ + dec(keys.len())
        + TO_KEY_PLURAL@ + only_if(keys.len() != 1, "s"@) + TO_KEYS@ + keys_html(keys)
}

/// The last part of the page: the settings for tests, and the script.
pub open spec fn page_end(state: StateView, site: SiteView) -> Seq<char> {
    let cfg = config_at(state, site);
    TO_ENDPOINT_VALUE@ + html(state.log_sender_endpoint) + TO_HOSTNAME@ + html(
        wt_hostname(state.node_name),
    ) + TO_IMAGE@ + html(cfg.image) + TO_ENTRYPOINT@ + html(
        match cfg.entrypoint_bind {
            Some(path) => path,
            None => "(none)"@,
        },
    ) + TO_STATUS_LINK@ + html(status_url(wt_hostname(state.node_name))) + TO_IMAGE_VALUE@ + html(
        state.wt_image_override,
    ) + TO_ENTRYPOINT_VALUE@ + html(state.wt_entrypoint_bind) + TO_VERSION_BADGE@ + VERSION@
        + TO_SCRIPT_MODE@ + state.hw_mode + TO_SCRIPT_NAME@ + escaped(
        state.node_name,
        Escape::Script,
    ) + TO_END@
}

/// The management page.
pub open spec fn manage_page(
    state: StateView,
    keys: Seq<Seq<char>>,
    uptime: nat,
    ip: Seq<char>,
    site: SiteView,
    running: bool,
) -> Seq<char> {
    page_head(state, uptime, ip) + page_settings(state) + page_access(state, keys, running)
        + page_end(state, site)
}

/// The mode as it is shown.
fn shown_mode(state: &AppState) -> (r: &'static str)
    ensures
        r@ == mode_shown(state@.hw_mode),
{
    if state.in_wind_tunnel() {
        "Wind Tunnel"
    } else {
        "EdgeNode"
    }
}

fn build_head(state: &AppState, uptime: u64, ip: &str) -> (r: String)
    ensures
        r@ == page_head(state@, uptime as nat, ip@),
{
    let name = html_escape(state.node_name.as_str());
    let mut out = TO_TITLE.to_owned();
    out.append(name.as_str());
    out.append(TO_STYLE);
    out.append(COMMON_CSS);
    out.append(TO_HEADING);
    out.append(name.as_str());
    out.append(TO_VERSION);
    out.append(VERSION);
    out.append(TO_ADDRESS);
    out.append(html_escape(ip).as_str());
    out.append(TO_UPTIME);
    out.append(fmt_uptime(uptime).as_str());
    out.append(TO_MODE);
    out.append(shown_mode(state));
    out.append(TO_AGENT_STATE);
    out.append(
        if is_blank(state.unyt_agent_id.as_str()) {
            "not set"
        } else {
            "set"
        },
    );
    out
}

fn build_settings(state: &AppState) -> (r: String)
    ensures
        r@ == page_settings(state@),
{
    let no_agent = is_blank(state.unyt_agent_id.as_str());
    let wind_tunnel = state.in_wind_tunnel();
    let mut out = TO_SEED_NOTICE.to_owned();
    out.append(
        if is_blank(state.seed_hash.as_str()) {
            SEED_NOTICE
        } else {
            ""
        },
    );
    out.append(TO_NAME_VALUE);
    out.append(html_escape(state.node_name.as_str()).as_str());
    out.append(TO_MODE_BADGE);
    out.append(shown_mode(state));
    out.append(TO_STANDARD_CLASS);
    out.append(
        if wind_tunnel {
            ""
        } else {
            " sel"
        },
    );
    out.append(TO_WIND_TUNNEL_CLASS);
    out.append(
        if wind_tunnel {
            " sel"
        } else {
            ""
        },
    );
    out.append(TO_AGENT_CLASS);
    out.append(
        if no_agent {
            "badge-gray"
        } else {
            "badge-green"
        },
    );
    out.append(TO_AGENT_BADGE);
    out.append(
        if no_agent {
            "not set"
        } else {
            "set"
        },
    );
    out.append(TO_AGENT_COPY);
    out.append(UNYT_INFO_COPY);
    out.append(TO_AGENT);
    if no_agent {
        out.append(html_escape("(not set — compensation unavailable)").as_str());
    } else {
        out.append(html_escape(state.unyt_agent_id.as_str()).as_str());
    }
    out.append(TO_AGENT_VALUE);
    out.append(html_escape(state.unyt_agent_id.as_str()).as_str());
    out
}

fn build_access(state: &AppState, keys: &Vec<String>, running: bool) -> (r: String)
    requires
        forall|i: int| 0 <= i < keys@.len() ==> key_cuttable(#[trigger] strings(keys@)[i]),
    ensures
        r@ == page_access(state@, strings(keys@), running),
{
    let mut out = TO_HAPPS_NOTICE.to_owned();
    out.append(
        if state.in_wind_tunnel() {
            HAPPS_WRONG_MODE
        } else if !running {
            HAPPS_NOT_RUNNING
        } else {
            ""
        },
    );
    out.append(TO_KEY_COUNT);
    push_dec(&mut out, keys.len() as u128);
    out.append(TO_KEY_PLURAL);
    out.append(
        if keys.len() == 1 {
            ""
        } else {
            "s"
        },
    );
    out.append(TO_KEYS);
    out.append(build_keys_html(keys).as_str());
    out
}

fn build_end(state: &AppState, site: &Site) -> (r: String)
    ensures
        r@ == page_end(state@, site@),
{
    let cfg = config_of(state, site);
    let hostname = build_wt_hostname(state.node_name.as_str());
    let entrypoint = match cfg.entrypoint_bind {
        Some(path) => path,
        None => "(none)".to_owned(),
    };
    let mut out = TO_ENDPOINT_VALUE.to_owned();
    out.append(html_escape(state.log_sender_endpoint.as_str()).as_str());
    out.append(TO_HOSTNAME);
    out.append(html_escape(hostname.as_str()).as_str());
    out.append(TO_IMAGE);
    out.append(html_escape(cfg.image.as_str()).as_str());
    out.append(TO_ENTRYPOINT);
    out.append(html_escape(entrypoint.as_str()).as_str());
    out.append(TO_STATUS_LINK);
    out.append(html_escape(wt_status_url(hostname.as_str()).as_str()).as_str());
    out.append(TO_IMAGE_VALUE);
    out.append(html_escape(state.wt_image_override.as_str()).as_str());
    out.append(TO_ENTRYPOINT_VALUE);
    out.append(html_escape(state.wt_entrypoint_bind.as_str()).as_str());
    out.append(TO_VERSION_BADGE);
    out.append(VERSION);
    out.append(TO_SCRIPT_MODE);
    out.append(state.hw_mode.as_str());
    out.append(TO_SCRIPT_NAME);
    out.append(escape(state.node_name.as_str(), Escape::Script).as_str());
    out.append(TO_END);
    out
}

/// The management page, given the content of the keys' file, how long the server
/// has been up, the node's address, its surroundings, and whether its ordinary
/// container runs.
pub fn build_manage_html(
    state: &AppState,
    authorized_keys: &str,
    uptime: u64,
    ip: &str,
    site: &Site,
    running: bool,
) -> (r: String)
    requires
        forall|i: int|
            0 <= i < keys_of(authorized_keys@).len() ==> key_cuttable(
                #[trigger] keys_of(authorized_keys@)[i],
            ),
    ensures
        r@ == manage_page(state@, keys_of(authorized_keys@), uptime as nat, ip@, site@, running),
{
    let keys = read_ssh_keys(authorized_keys);
    let mut out = build_head(state, uptime, ip);
    out.append(build_settings(state).as_str());
    out.append(build_access(state, &keys, running).as_str());
    out.append(build_end(state, site).as_str());
    out
}

} // verus!
