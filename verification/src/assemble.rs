//! The testbench assembler: wraps compiled stimulus text in the fixed
//! circuit-specific declaration header and termination footer, with the
//! testbench's name inserted at its three declaration sites.

use vstd::prelude::*;
use crate::model::InputListWithAsserts;
use crate::text::program_text;

verus! {

/// The fixed header up to the entity declaration's name.
pub const HEAD_ENTITY: &'static str = "\nLIBRARY IEEE;\nUSE IEEE.STD_LOGIC_1164.ALL;\nUSE IEEE.NUMERIC_STD.ALL;\nUSE std.env.stop;\n\nENTITY ";

/// Between the entity declaration's name and the entity end's name.
pub const HEAD_END: &'static str = " IS\nEND ";

/// Between the entity end's name and the architecture site's name.
pub const HEAD_ARCH: &'static str = ";\n\nARCHITECTURE behavior OF ";

/// The rest of the fixed header: component declaration, signals,
/// instantiation, clock generation, and the opening of the stimulus
/// process with its initial reset pulse.
pub const HEAD_BODY: &'static str = " IS\n\n    -- Component Declaration for the Unit Under Test (UUT)\n    COMPONENT SequenceRecognizer\n        PORT (\n            clk : IN STD_LOGIC;\n            reset : IN STD_LOGIC;\n            number : IN STD_LOGIC_VECTOR(7 DOWNTO 0);\n            first : IN STD_LOGIC;\n            unlock : OUT STD_LOGIC;\n            warning : OUT STD_LOGIC\n        );\n    END COMPONENT;\n\n    -- Inputs\n    SIGNAL clk : STD_LOGIC := '0';\n    SIGNAL reset : STD_LOGIC := '0';\n    SIGNAL number : STD_LOGIC_VECTOR(7 DOWNTO 0) := (OTHERS => '0');\n    SIGNAL first : STD_LOGIC := '0';\n\n    -- Outputs\n    SIGNAL unlock : STD_LOGIC;\n    SIGNAL warning : STD_LOGIC;\n\n    -- Clock period definition\n    CONSTANT clk_period : TIME := 10 ns;\n\nBEGIN\n\n    -- Instantiate the Unit Under Test (UUT)\n    uut : SequenceRecognizer PORT MAP(\n        clk => clk,\n        reset => reset,\n        number => number,\n        first => first,\n        unlock => unlock,\n        warning => warning\n    );\n\n    -- Clock process definitions\n    clk_process : PROCESS\n    BEGIN\n        clk <= '0';\n        WAIT FOR clk_period/2;\n        clk <= '1';\n        WAIT FOR clk_period/2;\n    END PROCESS;\n\n    -- Stimulus process\n    stim_proc : PROCESS\n    BEGIN\t\t\n    reset <= '1';\n    WAIT FOR CLK_PERIOD; \n";

/// The fixed footer that closes the stimulus process and architecture.
pub const FOOTER: &'static str = "END process;\nEND behavior;\n";

/// The fixed header with a testbench name inserted at its three sites.
pub open spec fn preamble_text(name: Seq<char>) -> Seq<char> {
    HEAD_ENTITY@ + name + HEAD_END@ + name + HEAD_ARCH@ + name + HEAD_BODY@
}

/// A complete testbench document: header, compiled stimulus, footer.
pub open spec fn testbench_text(name: Seq<char>, entries: Seq<crate::model::InputWithAsserts>) -> Seq<char> {
    preamble_text(name) + program_text(entries) + FOOTER@
}

/// The fixed declaration header, parameterized by the testbench name.
pub fn preamble(name: &str) -> (r: String)
    ensures
        r@ == preamble_text(name@),
{
    String::from_str(HEAD_ENTITY).concat(name).concat(HEAD_END).concat(name).concat(
        HEAD_ARCH,
    ).concat(name).concat(HEAD_BODY)
}

/// Assembles the complete testbench document for a stimulus program.
pub fn emit_tb(input_list: InputListWithAsserts, name: &str) -> (r: String)
    ensures
        r@ == testbench_text(name@, input_list.inputs@),
{
    let mut r = preamble(name);
    let body = input_list.emit();
    r.append(body.as_str());
    r.append(FOOTER);
    r
}

} // verus!
