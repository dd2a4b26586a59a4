//! Simple peripheral models: a periodic timer, a UART with ring buffers, and a GPIO port.
use vstd::prelude::*;

verus! {

/// Bytes in each UART ring buffer.
pub const UART_BUFFER_SIZE: usize = 256;

/// Pins on a GPIO port.
pub const GPIO_PINS: usize = 16;

/// A counter that wraps at its period while enabled.
pub struct Timer {
    pub counter: u32,
    pub period: u32,
    pub enabled: bool,
}

impl Timer {
    /// A disabled timer with period 1000.
    pub fn new() -> (r: Self)
        ensures
            r.counter == 0,
            r.period == 1000,
            !r.enabled,
    {
        Timer { counter: 0, period: 1000, enabled: false }
    }

    /// Counts one tick when enabled; on reaching the period the counter wraps
    /// to 0 and the result is true.
    pub fn tick(&mut self) -> (r: bool)
        requires
            old(self).enabled ==> old(self).counter < u32::MAX,
        ensures
            final(self).period == old(self).period,
            final(self).enabled == old(self).enabled,
            !old(self).enabled ==> !r && final(self).counter == old(self).counter,
            old(self).enabled ==> {
                &&& r == (old(self).counter + 1 >= old(self).period)
                &&& final(self).counter == (if r {
                    0
                } else {
                    old(self).counter + 1
                })
            },
    {
        if self.enabled {
            self.counter = self.counter + 1;
            if self.counter >= self.period {
                self.counter = 0;
                true
            } else {
                false
            }
        } else {
            false
        }
    }
}

/// Transmit and receive ring buffers. A buffer is empty when its head equals
/// its tail, and holds at most 255 bytes.
pub struct Uart {
    pub tx_buffer: Vec<u8>,
    pub rx_buffer: Vec<u8>,
    pub tx_head: usize,
    pub tx_tail: usize,
    pub rx_head: usize,
    pub rx_tail: usize,
}

/// The ring position after `i`.
pub open spec fn ring_next(i: usize) -> usize {
    ((i + 1) % UART_BUFFER_SIZE as int) as usize
}

impl Uart {
    pub open spec fn wf(&self) -> bool {
        &&& self.tx_buffer@.len() == UART_BUFFER_SIZE
        &&& self.rx_buffer@.len() == UART_BUFFER_SIZE
        &&& self.tx_head < UART_BUFFER_SIZE
        &&& self.tx_tail < UART_BUFFER_SIZE
        &&& self.rx_head < UART_BUFFER_SIZE
        &&& self.rx_tail < UART_BUFFER_SIZE
    }

    /// Empty buffers.
    pub fn new() -> (r: Self)
        ensures
            r.wf(),
            r.tx_head == 0 && r.tx_tail == 0 && r.rx_head == 0 && r.rx_tail == 0,
    {
        let mut tx_buffer: Vec<u8> = Vec::new();
        let mut rx_buffer: Vec<u8> = Vec::new();
        let mut i: usize = 0;
        while i < UART_BUFFER_SIZE
            invariant
                i <= UART_BUFFER_SIZE,
                tx_buffer@.len() == i,
                rx_buffer@.len() == i,
            decreases UART_BUFFER_SIZE - i,
        {
            tx_buffer.push(0);
            rx_buffer.push(0);
            i = i + 1;
        }
        Uart { tx_buffer, rx_buffer, tx_head: 0, tx_tail: 0, rx_head: 0, rx_tail: 0 }
    }

    /// Queues `byte` for transmission; false (nothing changed) when the buffer is full.
    pub fn send_byte(&mut self, byte: u8) -> (r: bool)
        requires
            old(self).wf(),
        ensures
            final(self).wf(),
            r == (ring_next(old(self).tx_head) != old(self).tx_tail),
            final(self).rx_buffer == old(self).rx_buffer,
            final(self).rx_head == old(self).rx_head,
            final(self).rx_tail == old(self).rx_tail,
            final(self).tx_tail == old(self).tx_tail,
            r ==> final(self).tx_buffer@ == old(self).tx_buffer@.update(old(self).tx_head as int, byte)
                && final(self).tx_head == ring_next(old(self).tx_head),
            !r ==> final(self).tx_buffer == old(self).tx_buffer && final(self).tx_head == old(self).tx_head,
    {
        let next_head = (self.tx_head + 1) % UART_BUFFER_SIZE;
        if next_head != self.tx_tail {
            let h = self.tx_head;
            self.tx_buffer[h] = byte;
            self.tx_head = next_head;
            true
        } else {
            false
        }
    }

    /// Takes the oldest received byte, or `None` when the buffer is empty.
    pub fn receive_byte(&mut self) -> (r: Option<u8>)
        requires
            old(self).wf(),
        ensures
            final(self).wf(),
            final(self).tx_buffer == old(self).tx_buffer,
            final(self).tx_head == old(self).tx_head,
            final(self).tx_tail == old(self).tx_tail,
            final(self).rx_buffer == old(self).rx_buffer,
            final(self).rx_head == old(self).rx_head,
            old(self).rx_head == old(self).rx_tail ==> r.is_none() && final(self).rx_tail
                == old(self).rx_tail,
            old(self).rx_head != old(self).rx_tail ==> r == Some(
                old(self).rx_buffer@[old(self).rx_tail as int],
            ) && final(self).rx_tail == ring_next(old(self).rx_tail),
    {
        if self.rx_head != self.rx_tail {
            let byte = self.rx_buffer[self.rx_tail];
            self.rx_tail = (self.rx_tail + 1) % UART_BUFFER_SIZE;
            Some(byte)
        } else {
            None
        }
    }
}

/// Sixteen digital pins.
pub struct Gpio {
    pub pins: Vec<bool>,
}

impl Gpio {
    pub open spec fn wf(&self) -> bool {
        self.pins@.len() == GPIO_PINS
    }

    /// All pins low.
    pub fn new() -> (r: Self)
        ensures
            r.wf(),
            forall|i: int| 0 <= i < GPIO_PINS ==> !r.pins@[i],
    {
        let mut pins: Vec<bool> = Vec::new();
        let mut i: usize = 0;
        while i < GPIO_PINS
            invariant
                i <= GPIO_PINS,
                pins@.len() == i,
                forall|j: int| 0 <= j < i ==> !pins@[j],
            decreases GPIO_PINS - i,
        {
            pins.push(false);
            i = i + 1;
        }
        Gpio { pins }
    }

    /// Sets pin `pin`; a pin beyond the port is ignored.
    pub fn set_pin(&mut self, pin: u8, state: bool)
        requires
            old(self).wf(),
        ensures
            final(self).wf(),
            final(self).pins@ == (if pin < GPIO_PINS {
                old(self).pins@.update(pin as int, state)
            } else {
                old(self).pins@
            }),
    {
        if (pin as usize) < self.pins.len() {
            self.pins[pin as usize] = state;
        }
    }

    /// The state of pin `pin`; a pin beyond the port reads low.
    pub fn get_pin(&self, pin: u8) -> (r: bool)
        requires
            self.wf(),
        ensures
            r == (pin < GPIO_PINS && self.pins@[pin as int]),
    {
        if (pin as usize) < self.pins.len() {
            self.pins[pin as usize]
        } else {
            false
        }
    }
}

} // verus!
