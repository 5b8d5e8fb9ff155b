//! The main page of the web UI, adapted to serial ports: a script is
//! injected before the closing body tag that relabels the connection form
//! (port list with a refresh button, baud-rate choice, status colours).
use vstd::prelude::*;
use crate::text::{lossy_string, replace_all, replace_str, utf8_lossy};

verus! {

/// The script block that replaces the closing body tag of the page; it
/// ends with the closing body tag itself.
pub const CONNECTION_SCRIPT: &'static str = r#"
<script>
document.addEventListener('DOMContentLoaded', () => {
    const observer = new MutationObserver(() => {
        document.querySelectorAll('label').forEach(label => {
            if (label.innerText === 'Network' || label.innerText === 'Device / COM Port') {
                if (!label.dataset.refreshInjected) {
                    label.innerText = 'Device / COM Port';
                    label.dataset.refreshInjected = "true";
                    label.style.display = 'flex';
                    label.style.justifyContent = 'space-between';
                    label.style.alignItems = 'center';
                    const refreshBtn = document.createElement('button');
                    refreshBtn.innerHTML = '&#x21bb;'; // refresh icon
                    refreshBtn.style.border = 'none';
                    refreshBtn.style.background = 'none';
                    refreshBtn.style.color = '#007bff';
                    refreshBtn.style.cursor = 'pointer';
                    refreshBtn.onclick = (e) => {
                        e.preventDefault();
                        window.location.reload();
                    };
                    label.appendChild(refreshBtn);
                }
            }
            if (label.innerText === 'Password') {
                label.innerText = 'Baud Rate';
                const input = label.nextElementSibling;
                if (input && input.tagName === 'INPUT' && input.type === 'password') {
                    if (!input.dataset.baudInjected) {
                        input.dataset.baudInjected = "true";
                        input.style.display = 'none';
                        const select = document.createElement('select');
                        select.className = input.className;
                        ['9600','19200','38400','57600','115200'].forEach(b => {
                            const opt = document.createElement('option');
                            opt.value = b; opt.innerText = b;
                            if (b === '38400') opt.selected = true;
                            select.appendChild(opt);
                        });
                        const setNativeValue = (element, value) => {
                            const valueSetter = Object.getOwnPropertyDescriptor(element, 'value').set;
                            const prototype = Object.getPrototypeOf(element);
                            const prototypeValueSetter = Object.getOwnPropertyDescriptor(prototype, 'value').set;
                            if (valueSetter && valueSetter !== prototypeValueSetter) {
                                prototypeValueSetter.call(element, value);
                            } else {
                                valueSetter.call(element, value);
                            }
                        };
                        select.addEventListener('change', (e) => {
                            setNativeValue(input, e.target.value);
                            input.dispatchEvent(new Event('input', { bubbles: true }));
                        });
                        input.parentNode.insertBefore(select, input.nextSibling);
                        setNativeValue(input, '38400');
                        input.dispatchEvent(new Event('input', { bubbles: true }));
                    }
                }
            }
            if (label.innerText === 'IP') label.innerText = 'Connection Status';
        });

        document.querySelectorAll('button').forEach(btn => {
            if (btn.innerText === 'Connect') {
                btn.style.backgroundColor = '#dc3545';
                btn.style.borderColor = '#dc3545';
            } else if (btn.innerText === 'Disconnect') {
                btn.style.backgroundColor = '#28a745';
                btn.style.borderColor = '#28a745';
            }
        });
        
        document.querySelectorAll('input[disabled]').forEach(input => {
            if (input.value === 'Disconnected') {
                input.style.backgroundColor = '#dc3545';
                input.style.color = 'white';
            } else if (input.value.startsWith('Serial')) {
                input.style.backgroundColor = '#28a745';
                input.style.color = 'white';
            }
        });
    });
    observer.observe(document.body, { childList: true, subtree: true });
});
</script>
</body>
"#;

/// The closing body tag.
pub const BODY_END: &'static str = "</body>";

/// The page `page` (bytes of HTML, decoded leniently) with the connection
/// script put in place of every closing body tag.
pub fn inject_connection_script(page: &[u8]) -> (r: String)
    ensures
        r@ == replace_all(utf8_lossy(page@), BODY_END@, CONNECTION_SCRIPT@),
{
    let html = lossy_string(page);
    proof {
        reveal_strlit("</body>");
    }
    replace_str(html.as_str(), BODY_END, CONNECTION_SCRIPT)
}

} // verus!
