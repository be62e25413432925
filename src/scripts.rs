//! The scripts evaluated inside the hosted page: the playback scraper,
//! which reports to the loopback listener, and the settings button.

use vstd::prelude::*;

verus! {

/// Scraper text up to the listener's port number.
pub const POLL_SCRIPT_HEAD: &'static str = r#"
(function(){
  try {
    function q(root,sel){
      if(!root)return null;
      var sr=root.shadowRoot||root._shadowRoot;
      if(sr){var r=sr.querySelector(sel);if(r)return r;}
      if(root.__shady_native_querySelector)return root.__shady_native_querySelector(sel);
      return root.querySelector(sel);
    }
    function qTree(r,s){
      var x=q(r,s);if(x)return x;
      for(var el=r.querySelectorAll('*'),i=0;i<el.length;i++){
        var sr=el[i].shadowRoot||el[i]._shadowRoot;
        if(sr){x=sr.querySelector(s);if(x)return x;}
      }
      var sr=r.shadowRoot||r._shadowRoot;
      if(sr){x=sr.querySelector(s);if(x)return x;}
      return null;
    }
    var bar=document.querySelector('ytmusic-player-bar');
    var t=bar?q(bar,'.title.ytmusic-player-bar')||q(bar,'.title'):null;
    if(!t)t=qTree(document.body,'#title yt-formatted-string, .title yt-formatted-string');
    var s=bar?q(bar,'.ytmusic-player-bar.subtitle')||q(bar,'.subtitle'):null;
    if(!s)s=qTree(document.body,'#subtitle yt-formatted-string, .subtitle yt-formatted-string');
    var artistLinks=bar&&(bar.shadowRoot||bar._shadowRoot)?(bar.shadowRoot||bar._shadowRoot).querySelectorAll('.ytmusic-player-bar.subtitle a[href*="channel/"]'):[];
    if(artistLinks&&artistLinks[0])s=artistLinks[0];
    var p=bar?q(bar,'#play-pause-button')||q(bar,'.play-pause-button'):null;
    if(!p)p=qTree(document.body,'#play-pause-button, .play-pause-button');
    var title=t?t.textContent.trim():'';
    var artist=s?s.textContent.trim():'';
    var state='paused';
    if(p){var l=(p.getAttribute('aria-label')||'').toLowerCase();state=l.indexOf('pause')>=0?'playing':'paused';}
    var prog=0,dur=0;
    var te=bar?q(bar,'.time-info')||q(bar,'.time'):null;
    if(!te)te=qTree(document.body,'.time-info, .time');
    if(te){
      var txt=te.textContent||'0:00 / 0:00';
      var pts=txt.split('/').map(function(x){return x.trim();});
      if(pts.length>=2){
        function parse(str){var p=str.split(':').map(Number).reverse(),sec=0;for(var i=0;i<p.length;i++)sec+=(p[i]||0)*Math.pow(60,i);return sec;}
        prog=parse(pts[0]);dur=parse(pts[1]);
      }
    }
    var json=JSON.stringify({title:title,artist:artist,album:'',state:state,progress:prog,duration:dur});
    if(title||artist){
      var img=new Image();
      img.src='http://127.0.0.1:"#;

/// Scraper text after the listener's port number.
pub const POLL_SCRIPT_TAIL: &'static str = r#"/playback?data='+encodeURIComponent(json);
    }
  }catch(e){}
})();
"#;

/// Adds a floating settings button to the page once; does nothing when it
/// is already there or the page has no body yet.
pub const SETTINGS_BUTTON_SCRIPT: &'static str = r#"
(function(){
  if (document.getElementById('ytm-settings-btn')) return;
  if (!document.body) return;
  var btn = document.createElement('button');
  btn.id = 'ytm-settings-btn';
  btn.type = 'button';
  btn.setAttribute('aria-label', 'Settings');
  btn.innerHTML = '<svg xmlns="http://www.w3.org/2000/svg" width="20" height="20" viewBox="0 0 24 24" fill="none" stroke="currentColor" stroke-width="2" stroke-linecap="round" stroke-linejoin="round"><circle cx="12" cy="12" r="3"/><path d="M19.4 15a1.65 1.65 0 0 0 .33 1.82l.06.06a2 2 0 0 1 0 2.83 2 2 0 0 1-2.83 0l-.06-.06a1.65 1.65 0 0 0-1.82-.33 1.65 1.65 0 0 0-1 1.51V21a2 2 0 0 1-2 2 2 2 0 0 1-2-2v-.09A1.65 1.65 0 0 0 9 19.4a1.65 1.65 0 0 0-1.82.33l-.06.06a2 2 0 0 1-2.83 0 2 2 0 0 1 0-2.83l.06-.06a1.65 1.65 0 0 0 .33-1.82 1.65 1.65 0 0 0-1.51-1H3a2 2 0 0 1-2-2 2 2 0 0 1 2-2h.09A1.65 1.65 0 0 0 4.6 9a1.65 1.65 0 0 0-.33-1.82l-.06-.06a2 2 0 0 1 0-2.83 2 2 0 0 1 2.83 0l.06.06a1.65 1.65 0 0 0 1.82.33H9a1.65 1.65 0 0 0 1-1.51V3a2 2 0 0 1 2-2 2 2 0 0 1 2 2v.09a1.65 1.65 0 0 0 1 1.51 1.65 1.65 0 0 0 1.82-.33l.06-.06a2 2 0 0 1 2.83 0 2 2 0 0 1 0 2.83l-.06.06a1.65 1.65 0 0 0-.33 1.82V9a1.65 1.65 0 0 0 1.51 1H21a2 2 0 0 1 2 2 2 2 0 0 1-2 2h-.09a1.65 1.65 0 0 0-1.51 1z"/></svg>';
  btn.style.cssText = 'position:fixed!important;top:12px!important;right:12px!important;z-index:2147483647!important;width:44px!important;height:44px!important;padding:0!important;border:1px solid rgba(255,255,255,0.3)!important;border-radius:50%!important;background:#3f3f3f!important;color:#fff!important;cursor:pointer!important;display:flex!important;align-items:center!important;justify-content:center!important;opacity:0.95!important;transition:opacity 0.2s,background 0.2s!important;pointer-events:auto!important;box-shadow:0 2px 8px rgba(0,0,0,0.3)!important;';
  btn.onmouseover = function(){ btn.style.opacity = '1'; btn.style.background = '#505050'; };
  btn.onmouseout = function(){ btn.style.opacity = '0.95'; btn.style.background = '#3f3f3f'; };
  btn.onclick = function(e){ e.preventDefault(); e.stopPropagation(); var t=window.__TAURI_INTERNALS__; if(t&&t.event){ t.event.emit('open-settings'); }else if(t&&t.invoke){ t.invoke('open_settings'); } };
  document.body.appendChild(btn);
})();
"#;

pub const DECIMAL_DIGITS: &'static str = "0123456789";

/// The decimal numeral of `n`, without leading zeros.
pub open spec fn decimal_text(n: nat) -> Seq<char>
    decreases n,
{
    if n < 10 {
        seq![DECIMAL_DIGITS@[n as int]]
    } else {
        decimal_text(n / 10).push(DECIMAL_DIGITS@[(n % 10) as int])
    }
}

/// The decimal numeral of `n`.
pub fn decimal_string(n: u64) -> (r: String)
    ensures
        r@ == decimal_text(n as nat),
    decreases n,
{
    proof {
        reveal_strlit("0123456789");
    }
    let d = (n % 10) as usize;
    let digit = DECIMAL_DIGITS.substring_char(d, d + 1);
    assert(digit@ == seq![DECIMAL_DIGITS@[d as int]]);
    if n < 10 {
        String::from_str(digit)
    } else {
        let mut s = decimal_string(n / 10);
        s.append(digit);
        s
    }
}

/// The scraper script with the listener's `port` baked into its beacon URL.
pub open spec fn poll_script(port: u16) -> Seq<char> {
    POLL_SCRIPT_HEAD@ + decimal_text(port as nat) + POLL_SCRIPT_TAIL@
}

/// The self-contained scraper script for a listener on `port`: it finds
/// the player's title, artist, play/pause control and time display (in
/// shadow roots too), and beacons them to `127.0.0.1:port` unless both
/// title and artist are empty. Any failure inside it is swallowed.
pub fn make_poll_script(port: u16) -> (r: String)
    ensures
        r@ == poll_script(port),
{
    let mut s = String::from_str(POLL_SCRIPT_HEAD);
    let digits = decimal_string(port as u64);
    s.append(digits.as_str());
    s.append(POLL_SCRIPT_TAIL);
    s
}

/// Returns the settings button injection script.
pub fn get_settings_button_script() -> (r: &'static str)
    ensures
        r@ == SETTINGS_BUTTON_SCRIPT@,
{
    SETTINGS_BUTTON_SCRIPT
}

/// The settings button script as an owned string.
pub fn make_settings_button_script() -> (r: String)
    ensures
        r@ == SETTINGS_BUTTON_SCRIPT@,
{
    String::from_str(get_settings_button_script())
}

} // verus!
