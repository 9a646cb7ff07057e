use vstd::prelude::*;

verus! {

/// The public Modbus function codes.
#[derive(Debug, Clone, Copy, PartialEq, Eq, Structural)]
pub enum FunctionCode {
    /// Read Coils (0x01).
    ReadCoils,
    /// Read Discrete Inputs (0x02).
    ReadDiscreteInputs,
    /// Read Holding Registers (0x03).
    ReadHoldingRegisters,
    /// Read Input Registers (0x04).
    ReadInputRegisters,
    /// Write Single Coil (0x05).
    WriteSingleCoil,
    /// Write Single Register (0x06).
    WriteSingleRegister,
    /// Read Exception Status (0x07).
    ReadExceptionStatus,
    /// Diagnostics (0x08).
    Diagnostics,
    /// Get Comm Event Counter (0x0B).
    GetCommEventCounter,
    /// Get Comm Event Log (0x0C).
    GetCommEventLog,
    /// Write Multiple Coils (0x0F).
    WriteMultipleCoils,
    /// Write Multiple Registers (0x10).
    WriteMultipleRegisters,
    /// Report Server ID (0x11).
    ReportServerId,
    /// Read File Record (0x14).
    ReadFileRecord,
    /// Write File Record (0x15).
    WriteFileRecord,
    /// Mask Write Register (0x16).
    MaskWriteRegister,
    /// Read/Write Multiple Registers (0x17).
    ReadWriteMultipleRegisters,
    /// Read FIFO Queue (0x18).
    ReadFifoQueue,
    /// Encapsulated Interface Transport (0x2B).
    EncapsulatedInterfaceTransport,
}

/// The wire byte of a function code.
pub open spec fn fc_byte(fc: FunctionCode) -> u8 {
    match fc {
        FunctionCode::ReadCoils => 0x01,
        FunctionCode::ReadDiscreteInputs => 0x02,
        FunctionCode::ReadHoldingRegisters => 0x03,
        FunctionCode::ReadInputRegisters => 0x04,
        FunctionCode::WriteSingleCoil => 0x05,
        FunctionCode::WriteSingleRegister => 0x06,
        FunctionCode::ReadExceptionStatus => 0x07,
        FunctionCode::Diagnostics => 0x08,
        FunctionCode::GetCommEventCounter => 0x0B,
        FunctionCode::GetCommEventLog => 0x0C,
        FunctionCode::WriteMultipleCoils => 0x0F,
        FunctionCode::WriteMultipleRegisters => 0x10,
        FunctionCode::ReportServerId => 0x11,
        FunctionCode::ReadFileRecord => 0x14,
        FunctionCode::WriteFileRecord => 0x15,
        FunctionCode::MaskWriteRegister => 0x16,
        FunctionCode::ReadWriteMultipleRegisters => 0x17,
        FunctionCode::ReadFifoQueue => 0x18,
        FunctionCode::EncapsulatedInterfaceTransport => 0x2B,
    }
}

/// The function code that a wire byte denotes, if any.
pub open spec fn fc_of_byte(b: u8) -> Option<FunctionCode> {
    if b == 0x01 {
        Some(FunctionCode::ReadCoils)
    } else if b == 0x02 {
        Some(FunctionCode::ReadDiscreteInputs)
    } else if b == 0x03 {
        Some(FunctionCode::ReadHoldingRegisters)
    } else if b == 0x04 {
        Some(FunctionCode::ReadInputRegisters)
    } else if b == 0x05 {
        Some(FunctionCode::WriteSingleCoil)
    } else if b == 0x06 {
        Some(FunctionCode::WriteSingleRegister)
    } else if b == 0x07 {
        Some(FunctionCode::ReadExceptionStatus)
    } else if b == 0x08 {
        Some(FunctionCode::Diagnostics)
    } else if b == 0x0B {
        Some(FunctionCode::GetCommEventCounter)
    } else if b == 0x0C {
        Some(FunctionCode::GetCommEventLog)
    } else if b == 0x0F {
        Some(FunctionCode::WriteMultipleCoils)
    } else if b == 0x10 {
        Some(FunctionCode::WriteMultipleRegisters)
    } else if b == 0x11 {
        Some(FunctionCode::ReportServerId)
    } else if b == 0x14 {
        Some(FunctionCode::ReadFileRecord)
    } else if b == 0x15 {
        Some(FunctionCode::WriteFileRecord)
    } else if b == 0x16 {
        Some(FunctionCode::MaskWriteRegister)
    } else if b == 0x17 {
        Some(FunctionCode::ReadWriteMultipleRegisters)
    } else if b == 0x18 {
        Some(FunctionCode::ReadFifoQueue)
    } else if b == 0x2B {
        Some(FunctionCode::EncapsulatedInterfaceTransport)
    } else {
        None
    }
}

impl FunctionCode {
    /// Returns the wire byte of this function code.
    pub fn to_u8(self) -> (r: u8)
        ensures
            r == fc_byte(self),
    {
        match self {
            FunctionCode::ReadCoils => 0x01,
            FunctionCode::ReadDiscreteInputs => 0x02,
            FunctionCode::ReadHoldingRegisters => 0x03,
            FunctionCode::ReadInputRegisters => 0x04,
            FunctionCode::WriteSingleCoil => 0x05,
            FunctionCode::WriteSingleRegister => 0x06,
            FunctionCode::ReadExceptionStatus => 0x07,
            FunctionCode::Diagnostics => 0x08,
            FunctionCode::GetCommEventCounter => 0x0B,
            FunctionCode::GetCommEventLog => 0x0C,
            FunctionCode::WriteMultipleCoils => 0x0F,
            FunctionCode::WriteMultipleRegisters => 0x10,
            FunctionCode::ReportServerId => 0x11,
            FunctionCode::ReadFileRecord => 0x14,
            FunctionCode::WriteFileRecord => 0x15,
            FunctionCode::MaskWriteRegister => 0x16,
            FunctionCode::ReadWriteMultipleRegisters => 0x17,
            FunctionCode::ReadFifoQueue => 0x18,
            FunctionCode::EncapsulatedInterfaceTransport => 0x2B,
        }
    }

    /// Decodes a wire byte into a function code; `None` for bytes that name no
    /// public function code.
    pub fn from_u8(b: u8) -> (r: Option<FunctionCode>)
        ensures
            r == fc_of_byte(b),
    {
        if b == 0x01 {
            Some(FunctionCode::ReadCoils)
        } else if b == 0x02 {
            Some(FunctionCode::ReadDiscreteInputs)
        } else if b == 0x03 {
            Some(FunctionCode::ReadHoldingRegisters)
        } else if b == 0x04 {
            Some(FunctionCode::ReadInputRegisters)
        } else if b == 0x05 {
            Some(FunctionCode::WriteSingleCoil)
        } else if b == 0x06 {
            Some(FunctionCode::WriteSingleRegister)
        } else if b == 0x07 {
            Some(FunctionCode::ReadExceptionStatus)
        } else if b == 0x08 {
            Some(FunctionCode::Diagnostics)
        } else if b == 0x0B {
            Some(FunctionCode::GetCommEventCounter)
        } else if b == 0x0C {
            Some(FunctionCode::GetCommEventLog)
        } else if b == 0x0F {
            Some(FunctionCode::WriteMultipleCoils)
        } else if b == 0x10 {
            Some(FunctionCode::WriteMultipleRegisters)
        } else if b == 0x11 {
            Some(FunctionCode::ReportServerId)
        } else if b == 0x14 {
            Some(FunctionCode::ReadFileRecord)
        } else if b == 0x15 {
            Some(FunctionCode::WriteFileRecord)
        } else if b == 0x16 {
            Some(FunctionCode::MaskWriteRegister)
        } else if b == 0x17 {
            Some(FunctionCode::ReadWriteMultipleRegisters)
        } else if b == 0x18 {
            Some(FunctionCode::ReadFifoQueue)
        } else if b == 0x2B {
            Some(FunctionCode::EncapsulatedInterfaceTransport)
        } else {
            None
        }
    }
}

/// Encoding a function code and decoding its byte gives the code back, and a
/// byte decodes to a code only if that code encodes to the byte: the
/// encoding is a bijection between the codes and the bytes that name them.
pub proof fn lemma_function_code_roundtrip(fc: FunctionCode, b: u8)
    ensures
        fc_of_byte(fc_byte(fc)) == Some(fc),
        fc_of_byte(b) == Some(fc) ==> fc_byte(fc) == b,
{
}


/// Each function code travels as the byte that the Modbus application
/// protocol assigns it (Read Coils 0x01, Read Discrete Inputs 0x02, Read
/// Holding Registers 0x03, Read Input Registers 0x04, and so on), in both
/// directions; every other byte names no public function code.
pub proof fn lemma_function_code_wire_bytes(b: u8)
    ensures
        fc_byte(FunctionCode::ReadCoils) == 0x01u8 && fc_of_byte(0x01u8) == Some(FunctionCode::ReadCoils),
        fc_byte(FunctionCode::ReadDiscreteInputs) == 0x02u8 && fc_of_byte(0x02u8) == Some(FunctionCode::ReadDiscreteInputs),
        fc_byte(FunctionCode::ReadHoldingRegisters) == 0x03u8 && fc_of_byte(0x03u8) == Some(FunctionCode::ReadHoldingRegisters),
        fc_byte(FunctionCode::ReadInputRegisters) == 0x04u8 && fc_of_byte(0x04u8) == Some(FunctionCode::ReadInputRegisters),
        fc_byte(FunctionCode::WriteSingleCoil) == 0x05u8 && fc_of_byte(0x05u8) == Some(FunctionCode::WriteSingleCoil),
        fc_byte(FunctionCode::WriteSingleRegister) == 0x06u8 && fc_of_byte(0x06u8) == Some(FunctionCode::WriteSingleRegister),
        fc_byte(FunctionCode::ReadExceptionStatus) == 0x07u8 && fc_of_byte(0x07u8) == Some(FunctionCode::ReadExceptionStatus),
        fc_byte(FunctionCode::Diagnostics) == 0x08u8 && fc_of_byte(0x08u8) == Some(FunctionCode::Diagnostics),
        fc_byte(FunctionCode::GetCommEventCounter) == 0x0Bu8 && fc_of_byte(0x0Bu8) == Some(FunctionCode::GetCommEventCounter),
        fc_byte(FunctionCode::GetCommEventLog) == 0x0Cu8 && fc_of_byte(0x0Cu8) == Some(FunctionCode::GetCommEventLog),
        fc_byte(FunctionCode::WriteMultipleCoils) == 0x0Fu8 && fc_of_byte(0x0Fu8) == Some(FunctionCode::WriteMultipleCoils),
        fc_byte(FunctionCode::WriteMultipleRegisters) == 0x10u8 && fc_of_byte(0x10u8) == Some(FunctionCode::WriteMultipleRegisters),
        fc_byte(FunctionCode::ReportServerId) == 0x11u8 && fc_of_byte(0x11u8) == Some(FunctionCode::ReportServerId),
        fc_byte(FunctionCode::ReadFileRecord) == 0x14u8 && fc_of_byte(0x14u8) == Some(FunctionCode::ReadFileRecord),
        fc_byte(FunctionCode::WriteFileRecord) == 0x15u8 && fc_of_byte(0x15u8) == Some(FunctionCode::WriteFileRecord),
        fc_byte(FunctionCode::MaskWriteRegister) == 0x16u8 && fc_of_byte(0x16u8) == Some(FunctionCode::MaskWriteRegister),
        fc_byte(FunctionCode::ReadWriteMultipleRegisters) == 0x17u8 && fc_of_byte(0x17u8) == Some(FunctionCode::ReadWriteMultipleRegisters),
        fc_byte(FunctionCode::ReadFifoQueue) == 0x18u8 && fc_of_byte(0x18u8) == Some(FunctionCode::ReadFifoQueue),
        fc_byte(FunctionCode::EncapsulatedInterfaceTransport) == 0x2Bu8 && fc_of_byte(0x2Bu8) == Some(FunctionCode::EncapsulatedInterfaceTransport),
        !(b == 0x01 || b == 0x02 || b == 0x03 || b == 0x04 || b == 0x05 || b == 0x06 || b == 0x07 || b == 0x08
            || b == 0x0B || b == 0x0C || b == 0x0F || b == 0x10 || b == 0x11 || b == 0x14 || b == 0x15 || b == 0x16
            || b == 0x17 || b == 0x18 || b == 0x2B) ==> fc_of_byte(b) is None,
{
}

} // verus!
