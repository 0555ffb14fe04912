use std::sync::{Arc, Condvar, Mutex};
use std::time::Duration;
use teemux_core::{AppError, TerminalEvent, TerminalManager, TerminalStream};

/// A stream whose writes wait for a gate to open, when it has one.
#[derive(Clone)]
struct GatedStream {
    gate: Option<Arc<(Mutex<bool>, Condvar)>>,
    written: Arc<Mutex<Vec<u8>>>,
}

impl TerminalStream for GatedStream {
    fn read_chunk(&mut self, _max: usize) -> Result<Vec<u8>, String> {
        Ok(Vec::new())
    }

    fn write_all(&mut self, data: &[u8]) -> Result<(), String> {
        if let Some(gate) = &self.gate {
            let (lock, cv) = &**gate;
            let mut open = lock.lock().unwrap();
            while !*open {
                open = cv.wait(open).unwrap();
            }
        }
        self.written.lock().unwrap().extend_from_slice(data);
        Ok(())
    }

    fn flush(&mut self) -> Result<(), String> {
        Ok(())
    }

    fn set_window_size(&mut self, _rows: u16, _cols: u16) -> Result<(), String> {
        Ok(())
    }
}

/// Writes through a handle to the stream, without holding the registry.
fn send(reg: &Mutex<TerminalManager<GatedStream>>, id: &str, data: &str) -> Result<(), AppError> {
    let handle = reg.lock().unwrap().stream_of(id).cloned();
    match handle {
        None => reg.lock().unwrap().send_data(id, data),
        Some(mut stream) => {
            let outcome = stream.write_all(data.as_bytes()).and_then(|_| stream.flush());
            reg.lock().unwrap().record_write(id, data, outcome)
        }
    }
}

#[test]
fn writes_to_distinct_terminals_complete_independently() {
    let gate = Arc::new((Mutex::new(false), Condvar::new()));
    let a_out = Arc::new(Mutex::new(Vec::new()));
    let b_out = Arc::new(Mutex::new(Vec::new()));
    let reg = Arc::new(Mutex::new(TerminalManager::new()));
    let (a, b) = {
        let mut r = reg.lock().unwrap();
        let a = r.create_terminal("sa");
        let b = r.create_terminal("sb");
        r.attach_stream(&a, GatedStream { gate: Some(gate.clone()), written: a_out.clone() })
            .unwrap();
        r.attach_stream(&b, GatedStream { gate: None, written: b_out.clone() }).unwrap();
        r.take_events();
        (a, b)
    };
    let rt = tokio::runtime::Builder::new_multi_thread()
        .worker_threads(2)
        .enable_all()
        .build()
        .unwrap();
    let reg_a = reg.clone();
    let a_id = a.clone();
    let slow = rt.spawn_blocking(move || send(&reg_a, &a_id, "slow"));
    let reg_b = reg.clone();
    let b_id = b.clone();
    let fast = rt.block_on(async move {
        tokio::time::timeout(
            Duration::from_secs(10),
            tokio::task::spawn_blocking(move || send(&reg_b, &b_id, "fast")),
        )
        .await
    });
    assert_eq!(fast.expect("the write to B waited for A").unwrap(), Ok(()));
    assert_eq!(*b_out.lock().unwrap(), b"fast".to_vec());
    assert!(a_out.lock().unwrap().is_empty());
    {
        let (lock, cv) = &*gate;
        *lock.lock().unwrap() = true;
        cv.notify_all();
    }
    assert_eq!(rt.block_on(slow).unwrap(), Ok(()));
    assert_eq!(*a_out.lock().unwrap(), b"slow".to_vec());
    let events = reg.lock().unwrap().take_events();
    assert_eq!(events.len(), 2);
    assert!(events
        .iter()
        .all(|e| matches!(e, TerminalEvent::Data { .. })));
}
