//! Text resources for the operator-facing surfaces, in English and Chinese.

use vstd::prelude::*;
use crate::strutil::{chars_of, chars_equal, lower_chars, lower_seq, spec_decimal, u64_to_string, u32_to_string, usize_to_string};

verus! {

/// Supported languages.
#[derive(Debug, Clone, Copy, PartialEq, Eq, Structural)]
pub enum Language {
    En,
    Zh,
}

impl Default for Language {
    fn default() -> (r: Self)
        ensures
            r == Language::En,
    {
        Language::En
    }
}

impl Language {
    /// Reads a language name, ASCII case-insensitively; anything unknown
    /// falls back to English.
    pub fn from_str(s: &str) -> (r: Self)
        ensures
            r == if lower_seq(s@) == "zh"@ || lower_seq(s@) == "chinese"@ || lower_seq(s@)
                == "中文"@ {
                Language::Zh
            } else {
                Language::En
            },
    {
        let lowered = lower_chars(&chars_of(s));
        let zh = chars_of("zh");
        let chinese = chars_of("chinese");
        let zhongwen = chars_of("中文");
        if chars_equal(&lowered, &zh) || chars_equal(&lowered, &chinese) || chars_equal(
            &lowered,
            &zhongwen,
        ) {
            Language::Zh
        } else {
            Language::En
        }
    }
}

/// Localized text for the dashboard and the status line.
#[derive(Debug, Clone, Copy, PartialEq, Eq, Structural)]
pub struct I18n {
    pub language: Language,
}

impl I18n {
    /// Texts in the given language.
    pub fn new(language: Language) -> (r: Self)
        ensures
            r.language == language,
    {
        I18n { language }
    }

    /// The application title.
    pub fn app_title(&self) -> (r: &'static str)
        ensures
            self.language == Language::En ==> r@ == "⚡ Zephyr - Auto Endpoint Switching"@,
            self.language == Language::Zh ==> r@ == "⚡ Zephyr - 自动端点切换"@,
    {
        match self.language {
            Language::En => "⚡ Zephyr - Auto Endpoint Switching",
            Language::Zh => "⚡ Zephyr - 自动端点切换",
        }
    }

    /// Label in front of the proxy address.
    pub fn proxy_label(&self) -> (r: &'static str)
        ensures
            self.language == Language::En ==> r@ == "🔗 Proxy:"@,
            self.language == Language::Zh ==> r@ == "🔗 代理:"@,
    {
        match self.language {
            Language::En => "🔗 Proxy:",
            Language::Zh => "🔗 代理:",
        }
    }

    /// Status shown while monitoring runs.
    pub fn status_monitoring(&self) -> (r: &'static str)
        ensures
            self.language == Language::En ==> r@ == "🟢 Monitoring"@,
            self.language == Language::Zh ==> r@ == "🟢 正在监控"@,
    {
        match self.language {
            Language::En => "🟢 Monitoring",
            Language::Zh => "🟢 正在监控",
        }
    }

    /// Status shown while health checks are paused.
    pub fn status_paused(&self) -> (r: &'static str)
        ensures
            self.language == Language::En ==> r@ == "⏸️  Health checks paused"@,
            self.language == Language::Zh ==> r@ == "⏸️  健康检查已暂停"@,
    {
        match self.language {
            Language::En => "⏸️  Health checks paused",
            Language::Zh => "⏸️  健康检查已暂停",
        }
    }

    /// The quit button.
    pub fn btn_quit(&self) -> (r: &'static str)
        ensures
            self.language == Language::En ==> r@ == "[Q] Quit"@,
            self.language == Language::Zh ==> r@ == "[Q] 退出"@,
    {
        match self.language {
            Language::En => "[Q] Quit",
            Language::Zh => "[Q] 退出",
        }
    }

    /// The manual-check button.
    pub fn btn_manual_check(&self) -> (r: &'static str)
        ensures
            self.language == Language::En ==> r@ == "[R] Manual Check"@,
            self.language == Language::Zh ==> r@ == "[R] 手动检查"@,
    {
        match self.language {
            Language::En => "[R] Manual Check",
            Language::Zh => "[R] 手动检查",
        }
    }

    /// The pause button.
    pub fn btn_pause(&self) -> (r: &'static str)
        ensures
            self.language == Language::En ==> r@ == "[P] Pause"@,
            self.language == Language::Zh ==> r@ == "[P] 暂停"@,
    {
        match self.language {
            Language::En => "[P] Pause",
            Language::Zh => "[P] 暂停",
        }
    }

    /// The resume button.
    pub fn btn_resume(&self) -> (r: &'static str)
        ensures
            self.language == Language::En ==> r@ == "[P] Resume"@,
            self.language == Language::Zh ==> r@ == "[P] 恢复"@,
    {
        match self.language {
            Language::En => "[P] Resume",
            Language::Zh => "[P] 恢复",
        }
    }

    /// The switch-to-manual-mode button.
    pub fn btn_to_manual(&self) -> (r: &'static str)
        ensures
            self.language == Language::En ==> r@ == "[M] Manual Mode"@,
            self.language == Language::Zh ==> r@ == "[M] 手动模式"@,
    {
        match self.language {
            Language::En => "[M] Manual Mode",
            Language::Zh => "[M] 手动模式",
        }
    }

    /// The switch-to-auto-mode button.
    pub fn btn_to_auto(&self) -> (r: &'static str)
        ensures
            self.language == Language::En ==> r@ == "[M] Auto Mode"@,
            self.language == Language::Zh ==> r@ == "[M] 自动模式"@,
    {
        match self.language {
            Language::En => "[M] Auto Mode",
            Language::Zh => "[M] 自动模式",
        }
    }

    /// Hint for browsing the endpoint list.
    pub fn btn_browse_endpoints(&self) -> (r: &'static str)
        ensures
            self.language == Language::En ==> r@ == " │ [↑↓] Browse Endpoints"@,
            self.language == Language::Zh ==> r@ == " │ [↑↓] 浏览端点"@,
    {
        match self.language {
            Language::En => " │ [↑↓] Browse Endpoints",
            Language::Zh => " │ [↑↓] 浏览端点",
        }
    }

    /// Hint for selecting an endpoint.
    pub fn btn_select_confirm(&self) -> (r: &'static str)
        ensures
            self.language == Language::En ==> r@ == " │ [↑↓] Select [Enter] Confirm"@,
            self.language == Language::Zh ==> r@ == " │ [↑↓] 选择 [Enter] 确认"@,
    {
        match self.language {
            Language::En => " │ [↑↓] Select [Enter] Confirm",
            Language::Zh => " │ [↑↓] 选择 [Enter] 确认",
        }
    }

    /// Indicator for automatic selection.
    pub fn mode_auto(&self) -> (r: &'static str)
        ensures
            self.language == Language::En ==> r@ == "🤖Auto"@,
            self.language == Language::Zh ==> r@ == "🤖自动"@,
    {
        match self.language {
            Language::En => "🤖Auto",
            Language::Zh => "🤖自动",
        }
    }

    /// Indicator for manual selection.
    pub fn mode_manual(&self) -> (r: &'static str)
        ensures
            self.language == Language::En ==> r@ == "🎯Manual"@,
            self.language == Language::Zh ==> r@ == "🎯手动"@,
    {
        match self.language {
            Language::En => "🎯Manual",
            Language::Zh => "🎯手动",
        }
    }

    /// Indicator for manual selection of the endpoint at `index` (shown
    /// one-based).
    pub fn mode_manual_indexed(&self, index: usize) -> (r: String)
        requires
            index < usize::MAX,
        ensures
            self.language == Language::En ==> r@ == "🎯Manual["@ + spec_decimal((index + 1) as nat)
                + "]"@,
            self.language == Language::Zh ==> r@ == "🎯手动["@ + spec_decimal((index + 1) as nat)
                + "]"@,
    {
        let mut s = match self.language {
            Language::En => String::from_str("🎯Manual["),
            Language::Zh => String::from_str("🎯手动["),
        };
        s.append(usize_to_string(index + 1).as_str());
        s.append("]");
        s
    }

    /// Status while a probe is in flight.
    pub fn status_checking(&self) -> (r: &'static str)
        ensures
            self.language == Language::En ==> r@ == "⟳ Checking..."@,
            self.language == Language::Zh ==> r@ == "⟳ 检查中..."@,
    {
        match self.language {
            Language::En => "⟳ Checking...",
            Language::Zh => "⟳ 检查中...",
        }
    }

    /// Mark for an available endpoint.
    pub fn status_available(&self) -> (r: &'static str)
        ensures
            r@ == "✓"@,
    {
        match self.language {
            Language::En => "✓",
            Language::Zh => "✓",
        }
    }

    /// Mark for a failed endpoint.
    pub fn status_error(&self) -> (r: &'static str)
        ensures
            r@ == "✗"@,
    {
        match self.language {
            Language::En => "✗",
            Language::Zh => "✗",
        }
    }

    /// Short text for a probe timeout.
    pub fn error_timeout(&self) -> (r: &'static str)
        ensures
            self.language == Language::En ==> r@ == "Timeout"@,
            self.language == Language::Zh ==> r@ == "超时"@,
    {
        match self.language {
            Language::En => "Timeout",
            Language::Zh => "超时",
        }
    }

    /// Short text for any other probe failure.
    pub fn error_generic(&self) -> (r: &'static str)
        ensures
            self.language == Language::En ==> r@ == "Error"@,
            self.language == Language::Zh ==> r@ == "错误"@,
    {
        match self.language {
            Language::En => "Error",
            Language::Zh => "错误",
        }
    }

    /// Progress text while a cycle runs, with the seconds left.
    pub fn health_checking_with_time(&self, seconds: u64) -> (r: String)
        ensures
            self.language == Language::En ==> r@ == "Checking... ("@ + spec_decimal(
                seconds as nat,
            ) + "s left)"@,
            self.language == Language::Zh ==> r@ == "检查中... ("@ + spec_decimal(seconds as nat)
                + "s剩余)"@,
    {
        match self.language {
            Language::En => {
                let mut s = String::from_str("Checking... (");
                s.append(u64_to_string(seconds).as_str());
                s.append("s left)");
                s
            },
            Language::Zh => {
                let mut s = String::from_str("检查中... (");
                s.append(u64_to_string(seconds).as_str());
                s.append("s剩余)");
                s
            },
        }
    }

    /// Text when the next cycle is due.
    pub fn health_ready(&self) -> (r: &'static str)
        ensures
            self.language == Language::En ==> r@ == "Ready"@,
            self.language == Language::Zh ==> r@ == "就绪"@,
    {
        match self.language {
            Language::En => "Ready",
            Language::Zh => "就绪",
        }
    }

    /// Countdown to the next cycle.
    pub fn health_next(&self, seconds: u64) -> (r: String)
        ensures
            self.language == Language::En ==> r@ == "Next: "@ + spec_decimal(seconds as nat)
                + "s"@,
            self.language == Language::Zh ==> r@ == "下次: "@ + spec_decimal(seconds as nat)
                + "s"@,
    {
        match self.language {
            Language::En => {
                let mut s = String::from_str("Next: ");
                s.append(u64_to_string(seconds).as_str());
                s.append("s");
                s
            },
            Language::Zh => {
                let mut s = String::from_str("下次: ");
                s.append(u64_to_string(seconds).as_str());
                s.append("s");
                s
            },
        }
    }

    /// High-load indicator with the connection count.
    pub fn load_high(&self, count: u32) -> (r: String)
        ensures
            self.language == Language::En ==> r@ == "High Load: "@ + spec_decimal(count as nat),
            self.language == Language::Zh ==> r@ == "高负载: "@ + spec_decimal(count as nat),
    {
        match self.language {
            Language::En => {
                let mut s = String::from_str("High Load: ");
                s.append(u32_to_string(count).as_str());
                s
            },
            Language::Zh => {
                let mut s = String::from_str("高负载: ");
                s.append(u32_to_string(count).as_str());
                s
            },
        }
    }

    /// Medium-load indicator with the connection count.
    pub fn load_medium(&self, count: u32) -> (r: String)
        ensures
            self.language == Language::En ==> r@ == "Med Load: "@ + spec_decimal(count as nat),
            self.language == Language::Zh ==> r@ == "中负载: "@ + spec_decimal(count as nat),
    {
        match self.language {
            Language::En => {
                let mut s = String::from_str("Med Load: ");
                s.append(u32_to_string(count).as_str());
                s
            },
            Language::Zh => {
                let mut s = String::from_str("中负载: ");
                s.append(u32_to_string(count).as_str());
                s
            },
        }
    }

    /// Low-load indicator with the connection count.
    pub fn load_low(&self, count: u32) -> (r: String)
        ensures
            self.language == Language::En ==> r@ == "Low Load: "@ + spec_decimal(count as nat),
            self.language == Language::Zh ==> r@ == "低负载: "@ + spec_decimal(count as nat),
    {
        match self.language {
            Language::En => {
                let mut s = String::from_str("Low Load: ");
                s.append(u32_to_string(count).as_str());
                s
            },
            Language::Zh => {
                let mut s = String::from_str("低负载: ");
                s.append(u32_to_string(count).as_str());
                s
            },
        }
    }

    /// Idle indicator.
    pub fn load_idle(&self) -> (r: &'static str)
        ensures
            self.language == Language::En ==> r@ == "Idle"@,
            self.language == Language::Zh ==> r@ == "空闲"@,
    {
        match self.language {
            Language::En => "Idle",
            Language::Zh => "空闲",
        }
    }

    /// Label for a fresh connection in the switch panel.
    pub fn switch_new_connection(&self) -> (r: &'static str)
        ensures
            self.language == Language::En ==> r@ == "New Connection"@,
            self.language == Language::Zh ==> r@ == "新连接"@,
    {
        match self.language {
            Language::En => "New Connection",
            Language::Zh => "新连接",
        }
    }

    /// Subtitle shown while health checks are paused.
    pub fn paused_subtitle(&self) -> (r: &'static str)
        ensures
            self.language == Language::En ==> r@
                == "⏸️  Health checks paused - Connection monitoring continues, auto switching stopped"@,
            self.language == Language::Zh ==> r@
                == "⏸️  健康检查已暂停 - 连接监控继续运行，自动切换已停止"@,
    {
        match self.language {
            Language::En => {
                "⏸️  Health checks paused - Connection monitoring continues, auto switching stopped"
            },
            Language::Zh => "⏸️  健康检查已暂停 - 连接监控继续运行，自动切换已停止",
        }
    }
}

} // verus!
